use pst_core::bbs::post_result::{classify_ch2, classify_shitaraba, snippet, PostOutcome, RejectKind};
use pst_core::util::errors::AppError;

#[test]
fn ch2_success_plain_text_without_marker() {
    let body = "<html><head><title>書きこみました。</title></head>\
         <body>書きこみが終わりました。<br>画面を切り替えるまでしばらくお待ち下さい。</body></html>";
    assert_eq!(classify_ch2(body), PostOutcome::Success);
}

#[test]
fn ch2_success_marker() {
    assert_eq!(
        classify_ch2("<html><!-- 2ch_X:true -->done</html>"),
        PostOutcome::Success
    );
}

#[test]
fn ch2_cookie_check() {
    assert_eq!(
        classify_ch2("<!-- 2ch_X:cookie -->cookie please"),
        PostOutcome::NeedsCookieConfirm
    );
    assert_eq!(
        classify_ch2("<!-- 2ch_X:check -->check please"),
        PostOutcome::NeedsCookieConfirm
    );
}

#[test]
fn ch2_regulated() {
    let html = "<html><body><h1>ERROR</h1>ホスト規制中です。</body></html>";
    match classify_ch2(html) {
        PostOutcome::Rejected(RejectKind::Regulated(_)) => {}
        other => panic!("expected Regulated, got {other:?}"),
    }
}

#[test]
fn ch2_other_reject() {
    let html = "<html><body>不正なフォームです</body></html>";
    match classify_ch2(html) {
        PostOutcome::Rejected(RejectKind::Other(_)) => {}
        other => panic!("expected Other, got {other:?}"),
    }
}

#[test]
fn shitaraba_success_japanese() {
    assert_eq!(
        classify_shitaraba("<html>書きこみました</html>"),
        PostOutcome::Success
    );
    assert_eq!(
        classify_shitaraba("<html>書き込みました</html>"),
        PostOutcome::Success
    );
}

#[test]
fn shitaraba_regulated() {
    let body = "アクセス規制対象です。";
    match classify_shitaraba(body) {
        PostOutcome::Rejected(RejectKind::Regulated(_)) => {}
        other => panic!("expected Regulated, got {other:?}"),
    }
}

#[test]
fn shitaraba_result_check_is_cookie_confirm_not_success() {
    assert_eq!(
        classify_shitaraba("RESULT::CHECK"),
        PostOutcome::NeedsCookieConfirm
    );
    assert_eq!(
        classify_shitaraba("<html>some preamble RESULT::CHECK trailer</html>"),
        PostOutcome::NeedsCookieConfirm
    );
}

#[test]
fn shitaraba_legacy_cookie_confirm() {
    assert_eq!(
        classify_shitaraba("<html>クッキーを有効にしてください</html>"),
        PostOutcome::NeedsCookieConfirm
    );
}

#[test]
fn snippet_strips_tags() {
    let s = snippet("<html><body>  Hello\n\nworld!  </body></html>");
    assert_eq!(s, "Hello world!");
}

#[test]
fn snippet_is_capped_at_200_chars() {
    let long = "あ".repeat(300);
    assert_eq!(snippet(&long).chars().count(), 200);
    assert_eq!(snippet("a<b>c</b>d"), "acd");
}

#[test]
fn reject_kind_maps_to_errors() {
    assert_eq!(
        RejectKind::Regulated("x".into()).into_error(),
        AppError::BoardRegulated("x".into())
    );
    assert_eq!(
        RejectKind::Other("y".into()).into_error(),
        AppError::PostRejected("y".into())
    );
    match classify_ch2("<b>不正</b>") {
        PostOutcome::Rejected(RejectKind::Other(s)) => assert_eq!(s, "不正"),
        other => panic!("unexpected {other:?}"),
    }
}

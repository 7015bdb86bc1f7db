//! Classification of the answer a board gives to a post: success, a cookie
//! confirmation round, a regulation, or another refusal.

use vstd::prelude::*;
use crate::text::{chars_of, contains, contains_exec, push_all, string_of, views, words, words_exec};
use crate::util::errors::AppError;

verus! {

/// What the (decoded) response body of a post says.
#[derive(Debug, Clone, PartialEq, Eq)]
pub enum PostOutcome {
    /// The post went through.
    Success,
    /// A two-step confirmation (cookie / check): the same POST sent again
    /// with the cookies is expected to pass.
    NeedsCookieConfirm,
    /// Regulated or refused.
    Rejected(RejectKind),
}

#[derive(Debug, Clone, PartialEq, Eq)]
pub enum RejectKind {
    /// Host / provider / flood regulation and the like.
    Regulated(String),
    /// Any other refusal (form tampering, failed confirmation ...).
    Other(String),
}

/// Abstract contents of a [`PostOutcome`].
pub enum OutcomeV {
    Success,
    NeedsCookieConfirm,
    Regulated(Seq<char>),
    Other(Seq<char>),
}

impl View for PostOutcome {
    type V = OutcomeV;

    open spec fn view(&self) -> OutcomeV {
        match self {
            PostOutcome::Success => OutcomeV::Success,
            PostOutcome::NeedsCookieConfirm => OutcomeV::NeedsCookieConfirm,
            PostOutcome::Rejected(RejectKind::Regulated(s)) => OutcomeV::Regulated(s@),
            PostOutcome::Rejected(RejectKind::Other(s)) => OutcomeV::Other(s@),
        }
    }
}

impl RejectKind {
    /// `Regulated` becomes `BoardRegulated`, `Other` becomes `PostRejected`,
    /// with the same message.
    pub fn into_error(self) -> (r: AppError)
        ensures
            match self {
                RejectKind::Regulated(s) => r == AppError::BoardRegulated(s),
                RejectKind::Other(s) => r == AppError::PostRejected(s),
            },
    {
        match self {
            RejectKind::Regulated(s) => AppError::BoardRegulated(s),
            RejectKind::Other(s) => AppError::PostRejected(s),
        }
    }
}

/// `s[i..]` with everything between `<` and `>` removed (`in_tag`: inside a
/// tag at `i`).
pub open spec fn strip_tags_from(s: Seq<char>, i: int, in_tag: bool) -> Seq<char>
    decreases s.len() - i,
{
    if i < 0 || i >= s.len() {
        Seq::empty()
    } else if s[i] == '<' {
        strip_tags_from(s, i + 1, true)
    } else if s[i] == '>' {
        strip_tags_from(s, i + 1, false)
    } else if !in_tag {
        seq![s[i]] + strip_tags_from(s, i + 1, false)
    } else {
        strip_tags_from(s, i + 1, true)
    }
}

/// The words joined by single spaces.
pub open spec fn join_words(ws: Seq<Seq<char>>) -> Seq<char>
    decreases ws.len(),
{
    if ws.len() == 0 {
        Seq::empty()
    } else if ws.len() == 1 {
        ws[0]
    } else {
        join_words(ws.drop_last()) + seq![' '] + ws.last()
    }
}

/// The first 200 characters of the body's text: tags stripped, runs of
/// whitespace collapsed to one space, ends trimmed.
pub open spec fn snippet_of(body: Seq<char>) -> Seq<char> {
    let t = join_words(words(strip_tags_from(body, 0, false)));
    if t.len() <= 200 {
        t
    } else {
        t.take(200)
    }
}

/// A response that says "regulated" in one of the known phrasings.
pub open spec fn is_regulated(body: Seq<char>) -> bool {
    ||| contains(body, "規制中"@)
    ||| contains(body, "ホスト規制"@)
    ||| contains(body, "プロバ規制"@)
    ||| contains(body, "巻き込まれ"@)
    ||| contains(body, "アクセス規制"@)
    ||| contains(body, "!=BANNED!="@)
    ||| contains(body, "!=Banned!="@)
    ||| contains(body, "Banned!"@)
    ||| contains(body, "ERROR: 規制"@)
    ||| contains(body, "書き込めません"@)
    ||| contains(body, "投稿できません"@)
}

/// A refusal: `Regulated` when the body reads as a regulation, else
/// `Other`; both carry the body's snippet.
pub open spec fn reject_of(body: Seq<char>) -> OutcomeV {
    if is_regulated(body) {
        OutcomeV::Regulated(snippet_of(body))
    } else {
        OutcomeV::Other(snippet_of(body))
    }
}

/// The completion page text that both families show.
pub open spec fn says_written(body: Seq<char>) -> bool {
    contains(body, "書きこみました"@) || contains(body, "書き込みました"@)
}

/// The outcome of a 2ch-compatible `bbs.cgi` answer.
pub open spec fn ch2_outcome(body: Seq<char>) -> OutcomeV {
    if contains(body, "<!-- 2ch_X:true -->"@) {
        OutcomeV::Success
    } else if contains(body, "<!-- 2ch_X:cookie -->"@) || contains(body, "<!-- 2ch_X:check -->"@) {
        OutcomeV::NeedsCookieConfirm
    } else if says_written(body) {
        OutcomeV::Success
    } else {
        reject_of(body)
    }
}

/// The outcome of a shitaraba `write.cgi` answer.
pub open spec fn shitaraba_outcome(body: Seq<char>) -> OutcomeV {
    if says_written(body) {
        OutcomeV::Success
    } else if contains(body, "RESULT::CHECK"@) || (contains(body, "クッキー"@) && contains(
        body,
        "有効"@,
    )) {
        OutcomeV::NeedsCookieConfirm
    } else {
        reject_of(body)
    }
}

fn has(v: &[char], lit: &str) -> (r: bool)
    ensures
        r == contains(v@, lit@),
{
    let p = chars_of(lit);
    contains_exec(v, p.as_slice())
}

/// Judge a 2ch-compatible response (decoded HTML).
pub fn classify_ch2(body: &str) -> (r: PostOutcome)
    ensures
        r@ == ch2_outcome(body@),
{
    let v = chars_of(body);
    if has(v.as_slice(), "<!-- 2ch_X:true -->") {
        return PostOutcome::Success;
    }
    if has(v.as_slice(), "<!-- 2ch_X:cookie -->") || has(v.as_slice(), "<!-- 2ch_X:check -->") {
        return PostOutcome::NeedsCookieConfirm;
    }
    // Compatible implementations without the 2ch_X comment only show the
    // completion text on success.
    if has(v.as_slice(), "書きこみました") || has(v.as_slice(), "書き込みました") {
        return PostOutcome::Success;
    }
    PostOutcome::Rejected(classify_reject(v.as_slice()))
}

/// Judge a shitaraba response (decoded HTML). `RESULT::CHECK` asks for the
/// cookie confirmation round and is never a success.
pub fn classify_shitaraba(body: &str) -> (r: PostOutcome)
    ensures
        r@ == shitaraba_outcome(body@),
{
    let v = chars_of(body);
    if has(v.as_slice(), "書きこみました") || has(v.as_slice(), "書き込みました") {
        return PostOutcome::Success;
    }
    if has(v.as_slice(), "RESULT::CHECK") || (has(v.as_slice(), "クッキー") && has(
        v.as_slice(),
        "有効",
    )) {
        return PostOutcome::NeedsCookieConfirm;
    }
    PostOutcome::Rejected(classify_reject(v.as_slice()))
}

/// Regulation or plain refusal, by the known phrasings; both boards.
fn classify_reject(body: &[char]) -> (r: RejectKind)
    ensures
        PostOutcome::Rejected(r)@ == reject_of(body@),
{
    let regulated = has(body, "規制中") || has(body, "ホスト規制") || has(body, "プロバ規制")
        || has(body, "巻き込まれ") || has(body, "アクセス規制") || has(body, "!=BANNED!=")
        || has(body, "!=Banned!=") || has(body, "Banned!") || has(body, "ERROR: 規制") || has(
        body,
        "書き込めません",
    ) || has(body, "投稿できません");
    let s = snippet_chars(body);
    if regulated {
        RejectKind::Regulated(s)
    } else {
        RejectKind::Other(s)
    }
}

/// The first 200 characters of a response's text, for messages to the
/// user: tags stripped, whitespace collapsed.
pub fn snippet(body: &str) -> (r: String)
    ensures
        r@ == snippet_of(body@),
{
    let v = chars_of(body);
    snippet_chars(v.as_slice())
}

fn snippet_chars(body: &[char]) -> (r: String)
    ensures
        r@ == snippet_of(body@),
{
    let mut text: Vec<char> = Vec::new();
    let mut in_tag = false;
    let mut i: usize = 0;
    while i < body.len()
        invariant
            i <= body.len(),
            strip_tags_from(body@, 0, false) == text@ + strip_tags_from(body@, i as int, in_tag),
        decreases body.len() - i,
    {
        let c = body[i];
        if c == '<' {
            in_tag = true;
        } else if c == '>' {
            in_tag = false;
        } else if !in_tag {
            let ghost before = text@;
            text.push(c);
            assert(before + (seq![c] + strip_tags_from(body@, i + 1, false)) == text@
                + strip_tags_from(body@, i + 1, false));
        }
        i += 1;
    }
    assert(text@ + Seq::<char>::empty() == text@);
    let ws = words_exec(text.as_slice());
    let ghost wsv = views(ws@);
    let mut joined: Vec<char> = Vec::new();
    let mut k: usize = 0;
    while k < ws.len()
        invariant
            k <= ws.len(),
            wsv == views(ws@),
            joined@ == join_words(wsv.take(k as int)),
        decreases ws.len() - k,
    {
        proof {
            assert(wsv.take(k + 1).drop_last() =~= wsv.take(k as int));
            assert(wsv.take(k + 1).last() == ws@[k as int]@);
        }
        if k > 0 {
            joined.push(' ');
        } else {
            assert(wsv.take(1) =~= seq![ws@[0]@]);
        }
        push_all(&mut joined, ws[k].as_slice());
        k += 1;
    }
    assert(wsv.take(ws.len() as int) =~= wsv);
    if joined.len() <= 200 {
        string_of(joined.as_slice())
    } else {
        string_of(crate::text::slice_exec(joined.as_slice(), 0, 200).as_slice())
    }
}

/// A reply that shows the completion text (`書き込みました` or
/// `書きこみました`) is a success: on a 2ch-compatible board when it
/// carries no cookie-confirmation marker, on shitaraba always. A
/// 2ch-compatible reply marked `2ch_X:true` is a success too, one marked
/// `2ch_X:cookie` or `2ch_X:check` (and not `true`) asks for the
/// confirmation round, and one with neither a marker nor the completion
/// text is a refusal.
pub proof fn law_written_reply_is_success(body: Seq<char>)
    ensures
        (contains(body, "書き込みました"@) || contains(body, "書きこみました"@)) && !contains(
            body,
            "<!-- 2ch_X:cookie -->"@,
        ) && !contains(body, "<!-- 2ch_X:check -->"@) ==> ch2_outcome(body) == OutcomeV::Success,
        contains(body, "<!-- 2ch_X:true -->"@) ==> ch2_outcome(body) == OutcomeV::Success,
        !contains(body, "<!-- 2ch_X:true -->"@) && (contains(body, "<!-- 2ch_X:cookie -->"@) || contains(
            body,
            "<!-- 2ch_X:check -->"@,
        )) ==> ch2_outcome(body) == OutcomeV::NeedsCookieConfirm,
        contains(body, "書き込みました"@) || contains(body, "書きこみました"@) ==> shitaraba_outcome(body)
            == OutcomeV::Success,
        !contains(body, "書き込みました"@) && !contains(body, "書きこみました"@) && !contains(
            body,
            "<!-- 2ch_X:true -->"@,
        ) && !contains(body, "<!-- 2ch_X:cookie -->"@) && !contains(body, "<!-- 2ch_X:check -->"@) ==> (
        ch2_outcome(body) is Regulated || ch2_outcome(body) is Other),
{
}

} // verus!

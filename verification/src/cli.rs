//! Command-line arguments of the viewer (hand-rolled: a couple of dozen
//! flags).

use vstd::prelude::*;
use crate::text::{chars_of, find, find_exec, occurs_at, parse_u32, parse_u32_exec, slice_exec, string_of};

verus! {

#[derive(Debug, Clone)]
pub struct CliArgs {
    /// Positional 1: the PeerCast playlist or stream URL.
    pub url: Option<String>,
    /// Positional 2: channel name (used for the initial title bar).
    pub channel_name: Option<String>,
    pub id: Option<String>,
    pub tip: Option<String>,
    pub contact: Option<String>,
    pub genre: Option<String>,
    pub desc: Option<String>,
    pub bitrate: Option<u32>,
    pub content_type: Option<String>,
    pub comment: Option<String>,
    pub yp_name: Option<String>,
    pub yp_url: Option<String>,
    pub no_autoplay: bool,
    pub no_bbs: bool,
    pub minimized: bool,
    pub show_help: bool,
    pub show_version: bool,
    /// Start recording right away (independent of favorites' auto_record).
    pub record_on_start: bool,
}

/// Abstract contents of [`CliArgs`].
pub struct CliV {
    pub url: Option<Seq<char>>,
    pub channel_name: Option<Seq<char>>,
    pub id: Option<Seq<char>>,
    pub tip: Option<Seq<char>>,
    pub contact: Option<Seq<char>>,
    pub genre: Option<Seq<char>>,
    pub desc: Option<Seq<char>>,
    pub bitrate: Option<u32>,
    pub content_type: Option<Seq<char>>,
    pub comment: Option<Seq<char>>,
    pub yp_name: Option<Seq<char>>,
    pub yp_url: Option<Seq<char>>,
    pub no_autoplay: bool,
    pub no_bbs: bool,
    pub minimized: bool,
    pub show_help: bool,
    pub show_version: bool,
    pub record_on_start: bool,
}

pub open spec fn ov(o: Option<String>) -> Option<Seq<char>> {
    match o {
        Some(s) => Some(s@),
        None => None,
    }
}

impl View for CliArgs {
    type V = CliV;

    open spec fn view(&self) -> CliV {
        CliV {
            url: ov(self.url),
            channel_name: ov(self.channel_name),
            id: ov(self.id),
            tip: ov(self.tip),
            contact: ov(self.contact),
            genre: ov(self.genre),
            desc: ov(self.desc),
            bitrate: self.bitrate,
            content_type: ov(self.content_type),
            comment: ov(self.comment),
            yp_name: ov(self.yp_name),
            yp_url: ov(self.yp_url),
            no_autoplay: self.no_autoplay,
            no_bbs: self.no_bbs,
            minimized: self.minimized,
            show_help: self.show_help,
            show_version: self.show_version,
            record_on_start: self.record_on_start,
        }
    }
}

/// Nothing given.
pub open spec fn cli_empty() -> CliV {
    CliV {
        url: None,
        channel_name: None,
        id: None,
        tip: None,
        contact: None,
        genre: None,
        desc: None,
        bitrate: None,
        content_type: None,
        comment: None,
        yp_name: None,
        yp_url: None,
        no_autoplay: false,
        no_bbs: false,
        minimized: false,
        show_help: false,
        show_version: false,
        record_on_start: false,
    }
}

/// A `--key value` / `--key=value` option applied to `out`; unknown keys
/// are ignored, a bitrate that does not parse is dropped.
pub open spec fn assign_long_spec(out: CliV, key: Seq<char>, val: Option<Seq<char>>) -> CliV {
    if key == "name"@ {
        CliV { channel_name: val, ..out }
    } else if key == "id"@ {
        CliV { id: val, ..out }
    } else if key == "tip"@ {
        CliV { tip: val, ..out }
    } else if key == "contact"@ {
        CliV { contact: val, ..out }
    } else if key == "genre"@ {
        CliV { genre: val, ..out }
    } else if key == "desc"@ {
        CliV { desc: val, ..out }
    } else if key == "bitrate"@ {
        CliV {
            bitrate: match val {
                Some(v) => parse_u32(v),
                None => None,
            },
            ..out
        }
    } else if key == "type"@ {
        CliV { content_type: val, ..out }
    } else if key == "comment"@ {
        CliV { comment: val, ..out }
    } else if key == "yp-name"@ {
        CliV { yp_name: val, ..out }
    } else if key == "yp-url"@ {
        CliV { yp_url: val, ..out }
    } else {
        out
    }
}

/// A bare `--flag` sets one of the boolean switches.
pub open spec fn flag_spec(out: CliV, rest: Seq<char>) -> Option<CliV> {
    if rest == "no-autoplay"@ {
        Some(CliV { no_autoplay: true, ..out })
    } else if rest == "no-bbs"@ {
        Some(CliV { no_bbs: true, ..out })
    } else if rest == "minimized"@ {
        Some(CliV { minimized: true, ..out })
    } else if rest == "help"@ {
        Some(CliV { show_help: true, ..out })
    } else if rest == "version"@ {
        Some(CliV { show_version: true, ..out })
    } else if rest == "record-on-start"@ {
        Some(CliV { record_on_start: true, ..out })
    } else {
        None
    }
}

/// Positionals fill `url` (first) and `channel_name` (second).
pub open spec fn finish_spec(out: CliV, pos: Seq<Seq<char>>) -> CliV {
    let a = if pos.len() > 0 {
        CliV { url: Some(pos[0]), ..out }
    } else {
        out
    };
    if pos.len() > 1 {
        CliV { channel_name: Some(pos[1]), ..a }
    } else {
        a
    }
}

/// The arguments from `i` on, read into `out` and `pos`: `--key=value`,
/// `--flag`, `--key value` (takes the next argument), `-h`, `-V`; anything
/// else is positional.
pub open spec fn parse_from(args: Seq<Seq<char>>, i: int, out: CliV, pos: Seq<Seq<char>>) -> CliV
    decreases args.len() - i,
{
    if i < 0 || i >= args.len() {
        finish_spec(out, pos)
    } else {
        let a = args[i];
        if occurs_at(a, 0, "--"@) {
            let rest = a.subrange(2, a.len() as int);
            match find(rest, seq!['=']) {
                Some(eq) => parse_from(
                    args,
                    i + 1,
                    assign_long_spec(out, rest.subrange(0, eq), Some(rest.subrange(eq + 1, rest.len() as int))),
                    pos,
                ),
                None => match flag_spec(out, rest) {
                    Some(o) => parse_from(args, i + 1, o, pos),
                    None => if i + 1 < args.len() {
                        parse_from(args, i + 2, assign_long_spec(out, rest, Some(args[i + 1])), pos)
                    } else {
                        parse_from(args, i + 1, assign_long_spec(out, rest, None), pos)
                    },
                },
            }
        } else if occurs_at(a, 0, "-"@) && a.subrange(1, a.len() as int) == "h"@ {
            parse_from(args, i + 1, CliV { show_help: true, ..out }, pos)
        } else if occurs_at(a, 0, "-"@) && a.subrange(1, a.len() as int) == "V"@ {
            parse_from(args, i + 1, CliV { show_version: true, ..out }, pos)
        } else {
            parse_from(args, i + 1, out, pos.push(a))
        }
    }
}

pub open spec fn strings_view(v: Seq<String>) -> Seq<Seq<char>> {
    v.map_values(|s: String| s@)
}

fn empty_args() -> (r: CliArgs)
    ensures
        r@ == cli_empty(),
{
    CliArgs {
        url: None,
        channel_name: None,
        id: None,
        tip: None,
        contact: None,
        genre: None,
        desc: None,
        bitrate: None,
        content_type: None,
        comment: None,
        yp_name: None,
        yp_url: None,
        no_autoplay: false,
        no_bbs: false,
        minimized: false,
        show_help: false,
        show_version: false,
        record_on_start: false,
    }
}

impl Default for CliArgs {
    fn default() -> (r: CliArgs)
        ensures
            r@ == cli_empty(),
    {
        empty_args()
    }
}

fn opt_string(v: &Option<Vec<char>>) -> (r: Option<String>)
    ensures
        ov(r) == match v {
            Some(x) => Some(x@),
            None => None::<Seq<char>>,
        },
{
    match v {
        Some(x) => Some(string_of(x.as_slice())),
        None => None,
    }
}

fn assign_long(out: &mut CliArgs, key: &[char], val: Option<Vec<char>>)
    ensures
        final(out)@ == assign_long_spec(
            old(out)@,
            key@,
            match val {
                Some(x) => Some(x@),
                None => None,
            },
        ),
{
    let eq = |lit: &str| -> (r: bool)
        ensures
            r == (key@ == lit@),
        { crate::text::eq_str_exec(key, lit) };
    if eq("name") {
        out.channel_name = opt_string(&val);
    } else if eq("id") {
        out.id = opt_string(&val);
    } else if eq("tip") {
        out.tip = opt_string(&val);
    } else if eq("contact") {
        out.contact = opt_string(&val);
    } else if eq("genre") {
        out.genre = opt_string(&val);
    } else if eq("desc") {
        out.desc = opt_string(&val);
    } else if eq("bitrate") {
        out.bitrate = match &val {
            Some(v) => parse_u32_exec(v.as_slice()),
            None => None,
        };
    } else if eq("type") {
        out.content_type = opt_string(&val);
    } else if eq("comment") {
        out.comment = opt_string(&val);
    } else if eq("yp-name") {
        out.yp_name = opt_string(&val);
    } else if eq("yp-url") {
        out.yp_url = opt_string(&val);
    }
}

/// One argument (two for `--key value`) read at `i`; returns where the
/// next argument starts.
fn parse_one(args: &[String], i: usize, out: &mut CliArgs, positional: &mut Vec<String>) -> (j: usize)
    requires
        i < args.len(),
    ensures
        i < j <= args.len(),
        parse_from(strings_view(args@), i as int, old(out)@, strings_view(old(positional)@))
            == parse_from(strings_view(args@), j as int, final(out)@, strings_view(final(positional)@)),
{
    let ghost av = strings_view(args@);
    let a = chars_of(args[i].as_str());
    assert(a@ == av[i as int]);
    proof {
        reveal_strlit("--");
        reveal_strlit("-");
    }
    if crate::text::occurs_lit_exec(a.as_slice(), 0, "--") {
        let rest = slice_exec(a.as_slice(), 2, a.len());
        let eqc: [char; 1] = ['='];
        assert(eqc@ == seq!['=']);
        proof {
            crate::text::lemma_find_from_bounds(rest@, seq!['='], 0);
        }
        match find_exec(rest.as_slice(), &eqc) {
            Some(eq) => {
                let k = slice_exec(rest.as_slice(), 0, eq);
                let v = slice_exec(rest.as_slice(), eq + 1, rest.len());
                assign_long(out, k.as_slice(), Some(v));
                i + 1
            },
            None => {
                let r = rest.as_slice();
                if crate::text::eq_str_exec(r, "no-autoplay") {
                    out.no_autoplay = true;
                    i + 1
                } else if crate::text::eq_str_exec(r, "no-bbs") {
                    out.no_bbs = true;
                    i + 1
                } else if crate::text::eq_str_exec(r, "minimized") {
                    out.minimized = true;
                    i + 1
                } else if crate::text::eq_str_exec(r, "help") {
                    out.show_help = true;
                    i + 1
                } else if crate::text::eq_str_exec(r, "version") {
                    out.show_version = true;
                    i + 1
                } else if crate::text::eq_str_exec(r, "record-on-start") {
                    out.record_on_start = true;
                    i + 1
                } else if i + 1 < args.len() {
                    let next = chars_of(args[i + 1].as_str());
                    assert(next@ == av[i + 1]);
                    assign_long(out, r, Some(next));
                    i + 2
                } else {
                    assign_long(out, r, None);
                    i + 1
                }
            },
        }
    } else if crate::text::occurs_lit_exec(a.as_slice(), 0, "-") && crate::text::eq_str_exec(
        slice_exec(a.as_slice(), 1, a.len()).as_slice(),
        "h",
    ) {
        out.show_help = true;
        i + 1
    } else if crate::text::occurs_lit_exec(a.as_slice(), 0, "-") && crate::text::eq_str_exec(
        slice_exec(a.as_slice(), 1, a.len()).as_slice(),
        "V",
    ) {
        out.show_version = true;
        i + 1
    } else {
        let ghost before = positional@;
        positional.push(args[i].clone());
        proof {
            assert(strings_view(positional@) =~= strings_view(before).push(av[i as int]));
        }
        i + 1
    }
}

/// Parse a slice of arguments (excluding `argv[0]`).
pub fn parse(args: &[String]) -> (r: CliArgs)
    ensures
        r@ == parse_from(strings_view(args@), 0, cli_empty(), Seq::empty()),
{
    let ghost av = strings_view(args@);
    let mut out = empty_args();
    let mut positional: Vec<String> = Vec::new();
    assert(strings_view(positional@) =~= Seq::<Seq<char>>::empty());
    let mut i: usize = 0;
    while i < args.len()
        invariant
            i <= args.len(),
            av == strings_view(args@),
            parse_from(av, 0, cli_empty(), Seq::empty()) == parse_from(
                av,
                i as int,
                out@,
                strings_view(positional@),
            ),
        decreases args.len() - i,
    {
        i = parse_one(args, i, &mut out, &mut positional);
    }
    let ghost pv = strings_view(positional@);
    if positional.len() > 0 {
        assert(pv[0] == positional@[0]@);
        out.url = Some(positional[0].clone());
    }
    if positional.len() > 1 {
        assert(pv[1] == positional@[1]@);
        out.channel_name = Some(positional[1].clone());
    }
    out
}

} // verus!

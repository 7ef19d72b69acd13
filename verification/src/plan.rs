//! What a `multica` invocation comes down to: the arguments handed to the
//! `multica` program, the labels under which the run is recorded, the
//! notice shown in verbose mode, and whether the output is filtered.

use vstd::prelude::*;
use crate::text::{chars_of, join, joined, push_str, string_of, str_equal, views};

verus! {

/// The filter that renders a command's output.
#[derive(Clone, Copy, PartialEq, Eq, Structural, Debug)]
pub enum Filter {
    IssueList,
    IssueGet,
    IssueRuns,
    WorkspaceList,
}

/// How the command's output reaches the user.
pub enum Mode {
    /// Rendered by the filter; the raw output is kept under the slug.
    Filtered(Filter, String),
    /// Shown unchanged.
    Passthrough,
}

/// A command to run and how to present it.
pub struct Invocation {
    /// The arguments for the `multica` program.
    pub args: Vec<String>,
    /// The label of the command that runs.
    pub command_label: String,
    /// The label of the filtered command.
    pub rtk_label: String,
    /// The line written to stderr first, in verbose mode.
    pub notice: Option<String>,
    /// The name under which a failure to start the command is reported.
    pub program: String,
    pub mode: Mode,
}

/// The view of a [`Mode`].
pub enum ModeView {
    Filtered(Filter, Seq<char>),
    Passthrough,
}

/// The view of an [`Invocation`].
pub struct InvocationView {
    pub args: Seq<Seq<char>>,
    pub command_label: Seq<char>,
    pub rtk_label: Seq<char>,
    pub notice: Option<Seq<char>>,
    pub program: Seq<char>,
    pub mode: ModeView,
}

/// The views of some strings.
pub open spec fn texts(v: Seq<String>) -> Seq<Seq<char>> {
    v.map_values(|s: String| s@)
}

impl View for Mode {
    type V = ModeView;

    open spec fn view(&self) -> ModeView {
        match self {
            Mode::Filtered(f, slug) => ModeView::Filtered(*f, slug@),
            Mode::Passthrough => ModeView::Passthrough,
        }
    }
}

impl View for Invocation {
    type V = InvocationView;

    open spec fn view(&self) -> InvocationView {
        InvocationView {
            args: texts(self.args@),
            command_label: self.command_label@,
            rtk_label: self.rtk_label@,
            notice: match self.notice {
                Some(n) => Some(n@),
                None => None,
            },
            program: self.program@,
            mode: self.mode@,
        }
    }
}

/// A `String` spelling `s`.
pub fn owned(s: &str) -> (r: String)
    ensures
        r@ == s@,
{
    let cs = chars_of(s);
    string_of(&cs)
}

/// Appends copies of some strings.
pub fn append_strings(out: &mut Vec<String>, v: &[String])
    ensures
        texts(final(out)@) == texts(old(out)@) + texts(v@),
{
    let ghost start = texts(out@);
    let mut i: usize = 0;
    while i < v.len()
        invariant
            i <= v.len(),
            texts(out@) == start + texts(v@).take(i as int),
        decreases v.len() - i,
    {
        let c = v[i].clone();
        assert(c@ == texts(v@)[i as int]);
        let ghost prev = out@;
        out.push(c);
        assert(out@ == prev.push(c));
        assert(texts(out@) =~= texts(prev).push(c@));
        assert(texts(v@).take(i + 1) =~= texts(v@).take(i as int).push(texts(v@)[i as int]));
        i += 1;
        assert(texts(out@) =~= start + texts(v@).take(i as int));
    }
    assert(texts(v@).take(v.len() as int) =~= texts(v@));
}

/// The strings joined with single spaces (as `join(" ")`).
pub fn join_words(v: &[String]) -> (r: Vec<char>)
    ensures
        r@ == joined(texts(v@), " "@),
{
    let mut parts: Vec<Vec<char>> = Vec::new();
    let mut i: usize = 0;
    while i < v.len()
        invariant
            i <= v.len(),
            views(parts@) == texts(v@).take(i as int),
        decreases v.len() - i,
    {
        let c = chars_of(v[i].as_str());
        assert(c@ == texts(v@)[i as int]);
        let ghost prev = parts@;
        parts.push(c);
        assert(parts@ == prev.push(c));
        assert(views(parts@) =~= views(prev).push(c@));
        assert(texts(v@).take(i + 1) =~= texts(v@).take(i as int).push(texts(v@)[i as int]));
        i += 1;
    }
    assert(texts(v@).take(v.len() as int) =~= texts(v@));
    join(&parts, " ")
}

/// The arguments of a passthrough: the leading word, then `args` unchanged.
pub open spec fn passthrough_view(lead: Seq<char>, args: Seq<Seq<char>>, notice_head: Seq<char>, verbose: u8, notice: Seq<char>, program: Seq<char>) -> InvocationView {
    InvocationView {
        args: seq![lead] + args,
        command_label: "multica "@ + lead + " "@ + joined(args, " "@),
        rtk_label: "rtk multica "@ + lead + " "@ + joined(args, " "@) + " (passthrough)"@,
        notice: if verbose > 0 { Some(notice_head + notice + "'"@) } else { None },
        program,
        mode: ModeView::Passthrough,
    }
}

/// The invocation that runs `multica <lead> <args...>` unchanged; in verbose
/// mode the notice is `notice_head`, then `notice`, then a closing quote.
pub fn passthrough(lead: &str, args: &[String], notice_head: &str, notice: &Vec<char>, verbose: u8, program: &str) -> (r: Invocation)
    ensures
        r@ == passthrough_view(lead@, texts(args@), notice_head@, verbose, notice@, program@),
{
    let mut all: Vec<String> = Vec::new();
    all.push(owned(lead));
    append_strings(&mut all, args);
    assert(texts(all@) =~= seq![lead@] + texts(args@));
    let words = join_words(args);
    let words_str = string_of(&words);
    let mut label: Vec<char> = Vec::new();
    push_str(&mut label, "multica ");
    push_str(&mut label, lead);
    push_str(&mut label, " ");
    push_str(&mut label, words_str.as_str());
    let mut rtk: Vec<char> = Vec::new();
    push_str(&mut rtk, "rtk multica ");
    push_str(&mut rtk, lead);
    push_str(&mut rtk, " ");
    push_str(&mut rtk, words_str.as_str());
    push_str(&mut rtk, " (passthrough)");
    let shown = if verbose > 0 {
        let mut n: Vec<char> = Vec::new();
        push_str(&mut n, notice_head);
        let notice_str = string_of(notice);
        push_str(&mut n, notice_str.as_str());
        push_str(&mut n, "'");
        Some(string_of(&n))
    } else {
        None
    };
    let r = Invocation {
        args: all,
        command_label: string_of(&label),
        rtk_label: string_of(&rtk),
        notice: shown,
        program: owned(program),
        mode: Mode::Passthrough,
    };
    assert(r@.command_label =~= "multica "@ + lead@ + " "@ + joined(texts(args@), " "@));
    assert(r@.rtk_label =~= "rtk multica "@ + lead@ + " "@ + joined(texts(args@), " "@) + " (passthrough)"@);
    assert(r@.args =~= seq![lead@] + texts(args@));
    r
}

} // verus!

verus! {

/// The strings of `v` from position `from` on.
pub fn strings_from(v: &[String], from: usize) -> (r: Vec<String>)
    requires
        from <= v.len(),
    ensures
        texts(r@) == texts(v@).skip(from as int),
{
    let mut r: Vec<String> = Vec::new();
    let mut i: usize = from;
    while i < v.len()
        invariant
            from <= i <= v.len(),
            texts(r@) == texts(v@).subrange(from as int, i as int),
        decreases v.len() - i,
    {
        let c = v[i].clone();
        assert(c@ == texts(v@)[i as int]);
        let ghost prev = r@;
        r.push(c);
        assert(r@ == prev.push(c));
        assert(texts(r@) =~= texts(prev).push(c@));
        assert(texts(v@).subrange(from as int, i + 1) =~= texts(v@).subrange(from as int, i as int).push(texts(v@)[i as int]));
        i += 1;
    }
    assert(texts(v@).subrange(from as int, v.len() as int) =~= texts(v@).skip(from as int));
    r
}

/// Whether the arguments already ask for JSON output: `--output json` as
/// two neighbours, or `--output=json`.
pub open spec fn asks_for_json(extra: Seq<Seq<char>>) -> bool {
    ||| exists|i: int| 0 <= i && i + 1 < extra.len() && #[trigger] extra[i] == "--output"@ && extra[i + 1] == "json"@
    ||| exists|i: int| 0 <= i < extra.len() && #[trigger] extra[i] == "--output=json"@
}

/// Whether the arguments already ask for JSON output, as [`asks_for_json`] says.
pub fn has_output_json(extra: &[String]) -> (r: bool)
    ensures
        r == asks_for_json(texts(extra@)),
{
    let ghost t = texts(extra@);
    let mut i: usize = 0;
    while i < extra.len()
        invariant
            i <= extra.len(),
            t == texts(extra@),
            forall|k: int| 0 <= k < i ==> !(#[trigger] t[k] == "--output=json"@),
            forall|k: int| 0 <= k < i && k + 1 < t.len() ==> !(#[trigger] t[k] == "--output"@ && t[k + 1] == "json"@),
        decreases extra.len() - i,
    {
        assert(t[i as int] == extra@[i as int]@);
        if str_equal(extra[i].as_str(), "--output=json") {
            return true;
        }
        if i + 1 < extra.len() {
            assert(t[i + 1] == extra@[i + 1]@);
            if str_equal(extra[i].as_str(), "--output") && str_equal(extra[i + 1].as_str(), "json") {
                return true;
            }
        }
        i += 1;
    }
    false
}

/// The invocation of a filtered command `multica <surface> <verb> <extra...>`.
pub open spec fn filtered_view(
    surface: Seq<char>,
    verb: Seq<char>,
    extra: Seq<Seq<char>>,
    json_flag: bool,
    notice_head: Seq<char>,
    notice_tail: Seq<char>,
    verbose: u8,
    filter: Filter,
    slug: Seq<char>,
    program: Seq<char>,
) -> InvocationView {
    InvocationView {
        args: seq![surface, verb] + extra + (if json_flag && !asks_for_json(extra) {
            seq!["--output"@, "json"@]
        } else {
            Seq::empty()
        }),
        command_label: "multica "@ + surface + " "@ + verb,
        rtk_label: "rtk "@ + ("multica "@ + surface + " "@ + verb),
        notice: if verbose > 0 { Some(notice_head + notice_tail) } else { None },
        program,
        mode: ModeView::Filtered(filter, slug),
    }
}

/// The invocation of `multica <surface> <verb> <extra...>` whose output the
/// filter renders; with `json_flag`, `--output json` is added unless the
/// arguments already ask for JSON.
pub fn filtered(
    surface: &str,
    verb: &str,
    extra: &[String],
    json_flag: bool,
    notice_head: &str,
    notice_tail: &Vec<char>,
    verbose: u8,
    filter: Filter,
    slug: &str,
    program: &str,
) -> (r: Invocation)
    ensures
        r@ == filtered_view(surface@, verb@, texts(extra@), json_flag, notice_head@, notice_tail@, verbose, filter, slug@, program@),
{
    let mut args: Vec<String> = Vec::new();
    args.push(owned(surface));
    args.push(owned(verb));
    append_strings(&mut args, extra);
    let ghost base = texts(args@);
    assert(base =~= seq![surface@, verb@] + texts(extra@));
    if json_flag && !has_output_json(extra) {
        let flag = owned("--output");
        let value = owned("json");
        let ghost prev = args@;
        args.push(flag);
        args.push(value);
        assert(texts(args@) =~= base + seq!["--output"@, "json"@]);
    } else {
        assert(texts(args@) =~= base + Seq::<Seq<char>>::empty());
    }
    let mut label: Vec<char> = Vec::new();
    push_str(&mut label, "multica ");
    push_str(&mut label, surface);
    push_str(&mut label, " ");
    push_str(&mut label, verb);
    let mut rtk: Vec<char> = Vec::new();
    push_str(&mut rtk, "rtk ");
    let label_str = string_of(&label);
    push_str(&mut rtk, label_str.as_str());
    let shown = if verbose > 0 {
        let mut n: Vec<char> = Vec::new();
        push_str(&mut n, notice_head);
        let tail = string_of(notice_tail);
        push_str(&mut n, tail.as_str());
        Some(string_of(&n))
    } else {
        None
    };
    let r = Invocation {
        args,
        command_label: label_str,
        rtk_label: string_of(&rtk),
        notice: shown,
        program: owned(program),
        mode: Mode::Filtered(filter, owned(slug)),
    };
    assert(r@.command_label =~= "multica "@ + surface@ + " "@ + verb@);
    r
}

} // verus!

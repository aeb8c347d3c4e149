//! What the compiler's command line and its `import`/`link` directives mean.
use vstd::prelude::*;
use crate::text::{text, push_char, text_eq};

verus! {

/// Whether `char::is_whitespace` holds of `c`: Unicode's `White_Space` property,
/// which has these 25 code points.
pub open spec fn is_whitespace_char(c: char) -> bool {
    let u = c as u32;
    ||| 0x09 <= u <= 0x0D
    ||| u == 0x20 || u == 0x85 || u == 0xA0 || u == 0x1680
    ||| 0x2000 <= u <= 0x200A
    ||| u == 0x2028 || u == 0x2029 || u == 0x202F || u == 0x205F || u == 0x3000
}

/// `char::is_whitespace`.
#[verifier::external_body]
fn char_is_whitespace(c: char) -> (r: bool)
    ensures
        r == is_whitespace_char(c),
{
    c.is_whitespace()
}

/// `str::chars`, collected: the characters of `s`, in order.
#[verifier::external_body]
fn line_chars(s: &str) -> (r: Vec<char>)
    ensures
        r@ == s@,
{
    s.chars().collect()
}

/// `s` without its leading characters that satisfy `p`.
pub open spec fn skip_front(s: Seq<char>, p: spec_fn(char) -> bool) -> Seq<char>
    decreases s.len(),
{
    if s.len() > 0 && p(s[0]) { skip_front(s.subrange(1, s.len() as int), p) } else { s }
}

/// `s` without its trailing characters that satisfy `p`.
pub open spec fn skip_back(s: Seq<char>, p: spec_fn(char) -> bool) -> Seq<char>
    decreases s.len(),
{
    if s.len() > 0 && p(s.last()) { skip_back(s.drop_last(), p) } else { s }
}

/// `str::trim`: without leading and trailing whitespace.
pub open spec fn trim_spec(s: Seq<char>) -> Seq<char> {
    skip_back(skip_front(s, |c: char| is_whitespace_char(c)), |c: char| is_whitespace_char(c))
}

/// The argument of a directive: `rest.trim().trim_end_matches(';').trim().trim_matches('"')`.
pub open spec fn directive_arg(rest: Seq<char>) -> Seq<char> {
    let a = trim_spec(rest);
    let b = skip_back(a, |c: char| c == ';');
    let d = trim_spec(b);
    skip_back(skip_front(d, |c: char| c == '"'), |c: char| c == '"')
}

/// A line of source text: an `import "path";`, a `link "flag";`, or code.
pub enum Directive {
    Import(String),
    Link(String),
    Code,
}

pub open spec fn directive_spec(line: Seq<char>) -> Option<(bool, Seq<char>)> {
    let t = trim_spec(line);
    if t.len() >= 7 && t.subrange(0, 7) == "import "@ {
        Some((true, directive_arg(t.subrange(7, t.len() as int))))
    } else if t.len() >= 5 && t.subrange(0, 5) == "link "@ {
        Some((false, directive_arg(t.subrange(5, t.len() as int))))
    } else {
        None
    }
}

/// The index just past the characters of `s` from `i` on that satisfy the test.
fn skip_front_index(s: &Vec<char>, lo: usize, hi: usize, quote_or_semi: u8) -> (r: usize)
    requires
        lo <= hi <= s@.len(),
    ensures
        lo <= r <= hi,
        skip_front(s@.subrange(lo as int, hi as int), char_test(quote_or_semi))
            == s@.subrange(r as int, hi as int),
{
    let mut i = lo;
    while i < hi && test_char(s[i], quote_or_semi)
        invariant
            lo <= i <= hi,
            hi <= s@.len(),
            skip_front(s@.subrange(lo as int, hi as int), char_test(quote_or_semi))
                == skip_front(s@.subrange(i as int, hi as int), char_test(quote_or_semi)),
        decreases hi - i,
    {
        assert(s@.subrange(i as int, hi as int).subrange(1, (hi - i) as int) =~= s@.subrange(i + 1, hi as int));
        i = i + 1;
    }
    i
}

/// The index just before the characters of `s` before `hi` that satisfy the test.
fn skip_back_index(s: &Vec<char>, lo: usize, hi: usize, quote_or_semi: u8) -> (r: usize)
    requires
        lo <= hi <= s@.len(),
    ensures
        lo <= r <= hi,
        skip_back(s@.subrange(lo as int, hi as int), char_test(quote_or_semi))
            == s@.subrange(lo as int, r as int),
{
    let mut j = hi;
    while j > lo && test_char(s[j - 1], quote_or_semi)
        invariant
            lo <= j <= hi,
            hi <= s@.len(),
            skip_back(s@.subrange(lo as int, hi as int), char_test(quote_or_semi))
                == skip_back(s@.subrange(lo as int, j as int), char_test(quote_or_semi)),
        decreases j - lo,
    {
        assert(s@.subrange(lo as int, j as int).drop_last() =~= s@.subrange(lo as int, j - 1));
        j = j - 1;
    }
    j
}

/// The tests the directive reader uses: 0 whitespace, 1 `;`, 2 `"`.
pub open spec fn char_test(which: u8) -> spec_fn(char) -> bool {
    if which == 0 {
        |c: char| is_whitespace_char(c)
    } else if which == 1 {
        |c: char| c == ';'
    } else {
        |c: char| c == '"'
    }
}

fn test_char(c: char, which: u8) -> (r: bool)
    ensures
        r == (char_test(which))(c),
{
    if which == 0 {
        char_is_whitespace(c)
    } else if which == 1 {
        c == ';'
    } else {
        c == '"'
    }
}

/// The characters of `s` from `lo` to `hi`.
fn collect(s: &Vec<char>, lo: usize, hi: usize) -> (r: String)
    requires
        lo <= hi <= s@.len(),
    ensures
        r@ == s@.subrange(lo as int, hi as int),
{
    let mut out = String::new();
    let mut i = lo;
    while i < hi
        invariant
            lo <= i <= hi,
            hi <= s@.len(),
            out@ == s@.subrange(lo as int, i as int),
        decreases hi - i,
    {
        push_char(&mut out, s[i]);
        assert(out@ =~= s@.subrange(lo as int, i + 1));
        i = i + 1;
    }
    out
}

/// Whether `s` has the characters of `p` at `at`.
fn has_at(s: &Vec<char>, at: usize, hi: usize, p: &str) -> (r: bool)
    requires
        at <= hi <= s@.len(),
    ensures
        r == (hi - at >= p@.len() && s@.subrange(at as int, at + p@.len()) == p@),
{
    let pc = line_chars(p);
    if hi - at < pc.len() {
        return false;
    }
    let mut k: usize = 0;
    while k < pc.len()
        invariant
            k <= pc@.len(),
            pc@ == p@,
            hi - at >= pc@.len(),
            hi <= s@.len(),
            forall|m: int| 0 <= m < k ==> s@[at + m] == pc@[m],
        decreases pc@.len() - k,
    {
        if s[at + k] != pc[k] {
            assert(s@.subrange(at as int, at + p@.len())[k as int] != p@[k as int]);
            return false;
        }
        k = k + 1;
    }
    assert(s@.subrange(at as int, at + p@.len()) =~= p@);
    true
}

/// Reads a line as a directive: after trimming, `import ` or `link ` and the
/// argument, with surrounding whitespace, trailing `;` and quotes removed.
pub fn classify_line(line: &str) -> (r: Directive)
    ensures
        match directive_spec(line@) {
            Some((true, a)) => r matches Directive::Import(p) && p@ == a,
            Some((false, a)) => r matches Directive::Link(f) && f@ == a,
            None => r is Code,
        },
{
    let s = line_chars(line);
    let n = s.len();
    assert(s@.subrange(0, n as int) =~= line@);
    let a = skip_front_index(&s, 0, n, 0);
    let b = skip_back_index(&s, a, n, 0);
    proof {
        assert(char_test(0) == |c: char| is_whitespace_char(c));
    }
    let ghost t = s@.subrange(a as int, b as int);
    assert(trim_spec(line@) == t);
    proof {
        reveal_strlit("import ");
        reveal_strlit("link ");
    }
    let (is_import, start) = if has_at(&s, a, b, "import ") {
        (true, a + 7)
    } else if has_at(&s, a, b, "link ") {
        (false, a + 5)
    } else {
        proof {
            reveal_strlit("import ");
            reveal_strlit("link ");
            assert(t.len() >= 7 ==> t.subrange(0, 7) =~= s@.subrange(a as int, a + 7));
            assert(t.len() >= 5 ==> t.subrange(0, 5) =~= s@.subrange(a as int, a + 5));
        }
        return Directive::Code;
    };
    proof {
        reveal_strlit("import ");
        reveal_strlit("link ");
        assert(t.len() >= 7 ==> t.subrange(0, 7) =~= s@.subrange(a as int, a + 7));
        assert(t.len() >= 5 ==> t.subrange(0, 5) =~= s@.subrange(a as int, a + 5));
    }
    let ghost rest = s@.subrange(start as int, b as int);
    assert(t.subrange(start - a, t.len() as int) =~= rest);
    let c1 = skip_front_index(&s, start, b, 0);
    let c2 = skip_back_index(&s, c1, b, 0);
    let d = skip_back_index(&s, c1, c2, 1);
    let e1 = skip_front_index(&s, c1, d, 0);
    let e2 = skip_back_index(&s, e1, d, 0);
    let f1 = skip_front_index(&s, e1, e2, 2);
    let f2 = skip_back_index(&s, f1, e2, 2);
    proof {
        assert(char_test(1) == |c: char| c == ';');
        assert(char_test(2) == |c: char| c == '"');
    }
    let arg = collect(&s, f1, f2);
    if is_import { Directive::Import(arg) } else { Directive::Link(arg) }
}

/// Adds `flag` to `flags` unless it is there already.
pub fn add_unique(flags: &mut Vec<String>, flag: String)
    ensures
        (exists|i: int| 0 <= i < old(flags)@.len() && old(flags)@[i]@ == flag@) ==> final(flags)@ == old(flags)@,
        !(exists|i: int| 0 <= i < old(flags)@.len() && old(flags)@[i]@ == flag@) ==> final(flags)@ == old(flags)@.push(flag),
{
    let mut i: usize = 0;
    while i < flags.len()
        invariant
            i <= flags@.len(),
            flags@ == old(flags)@,
            forall|k: int| 0 <= k < i ==> flags@[k]@ != flag@,
        decreases flags@.len() - i,
    {
        if text_eq(flags[i].as_str(), flag.as_str()) {
            return;
        }
        i = i + 1;
    }
    flags.push(flag);
}

/// Records `path` among the files `seen` and tells whether it was new: a file is
/// inlined by the first import that reaches it, and every later import of it
/// (a duplicate, or a cycle back to it) is ignored.
pub fn first_visit(seen: &mut Vec<String>, path: String) -> (r: bool)
    ensures
        r == !texts(old(seen)@).contains(path@),
        texts(final(seen)@) == if r { texts(old(seen)@).push(path@) } else { texts(old(seen)@) },
{
    let mut i: usize = 0;
    while i < seen.len()
        invariant
            i <= seen@.len(),
            seen@ == old(seen)@,
            forall|k: int| 0 <= k < i ==> seen@[k]@ != path@,
        decreases seen@.len() - i,
    {
        if text_eq(seen[i].as_str(), path.as_str()) {
            assert(texts(seen@)[i as int] == path@);
            return false;
        }
        i = i + 1;
    }
    let ghost before = seen@;
    seen.push(path);
    assert(texts(seen@) =~= texts(before).push(path@));
    true
}

/// A file is inlined at most once: once a visit has recorded `path`, the record
/// holds it, so every later `first_visit` of the same path answers `false` and
/// leaves the record unchanged.
pub proof fn law_import_once(seen: Seq<Seq<char>>, path: Seq<char>)
    ensures
        seen.push(path).contains(path),
{
    assert(seen.push(path)[seen.len() as int] == path);
}

/// The strings' characters.
pub open spec fn texts(v: Seq<String>) -> Seq<Seq<char>> {
    v.map_values(|s: String| s@)
}

/// What the command line has gathered so far: verbose, run, positional
/// arguments and link flags.
pub type ArgState = (bool, bool, Seq<Seq<char>>, Seq<Seq<char>>);

pub open spec fn is_help(a: Seq<char>) -> bool {
    a == "-h"@ || a == "--help"@
}

pub open spec fn ends_with(a: Seq<char>, suffix: Seq<char>) -> bool {
    a.len() >= suffix.len() && a.subrange(a.len() - suffix.len(), a.len() as int) == suffix
}

/// One argument, read as the command line reads it (help aside).
pub open spec fn arg_step(st: ArgState, a: Seq<char>) -> ArgState {
    if a == "-v"@ || a == "--verbose"@ {
        (true, st.1, st.2, st.3)
    } else if a == "run"@ && st.2.len() == 0 {
        (st.0, true, st.2, st.3)
    } else if a == "build"@ && st.2.len() == 0 {
        st
    } else if a.len() > 0 && a[0] == '-' {
        (st.0, st.1, st.2, st.3.push(a))
    } else if ends_with(a, ".c"@) || ends_with(a, ".o"@) {
        (st.0, st.1, st.2, st.3.push(a))
    } else {
        (st.0, st.1, st.2.push(a), st.3)
    }
}

/// The arguments read from the first to the last.
pub open spec fn args_fold(args: Seq<Seq<char>>) -> ArgState
    decreases args.len(),
{
    if args.len() == 0 {
        (false, false, Seq::empty(), Seq::empty())
    } else {
        arg_step(args_fold(args.drop_last()), args.last())
    }
}

/// What the command line asks for.
pub enum Command {
    /// Print the usage text and stop with success.
    Help,
    /// Print the usage text and stop with failure.
    Usage,
    /// Compile `positional[0]`, to `positional[1]` when given, and run it when `run`.
    Compile { verbose: bool, run: bool, positional: Vec<String>, link_flags: Vec<String> },
}

fn is_text(a: &Vec<char>, t: &str) -> (r: bool)
    ensures
        r == (a@ == t@),
{
    let n = a.len();
    let m = has_at(a, 0, n, t);
    assert(a@.subrange(0, n as int) =~= a@);
    if m {
        proof {
            if a@.len() != t@.len() {
                assert(a@.subrange(0, t@.len() as int).len() == t@.len());
            }
        }
        n == line_chars(t).len()
    } else {
        false
    }
}

fn ends_with_text(a: &Vec<char>, t: &str) -> (r: bool)
    ensures
        r == ends_with(a@, t@),
{
    let pc = line_chars(t);
    let n = a.len();
    if n < pc.len() {
        return false;
    }
    has_at(a, n - pc.len(), n, t)
}

/// Reads the command line `args` (the program's name first).
pub fn parse_args(args: &Vec<String>) -> (r: Command)
    ensures
        args@.len() < 2 ==> r is Usage,
        args@.len() >= 2 ==> ({
            let rest = texts(args@).subrange(1, args@.len() as int);
            let st = args_fold(rest);
            if exists|i: int| 0 <= i < rest.len() && is_help(#[trigger] rest[i]) {
                r is Help
            } else if st.2.len() == 0 {
                r is Usage
            } else {
                r matches Command::Compile { verbose, run, positional, link_flags }
                    && verbose == st.0 && run == st.1
                    && texts(positional@) == st.2 && texts(link_flags@) == st.3
            }
        }),
{
    if args.len() < 2 {
        return Command::Usage;
    }
    let ghost all = texts(args@);
    let mut verbose = false;
    let mut run = false;
    let mut positional: Vec<String> = Vec::new();
    let mut link_flags: Vec<String> = Vec::new();
    let mut i: usize = 1;
    while i < args.len()
        invariant
            1 <= i <= args@.len(),
            all == texts(args@),
            forall|k: int| 1 <= k < i ==> !is_help(#[trigger] all[k]),
            args_fold(all.subrange(1, i as int))
                == (verbose, run, texts(positional@), texts(link_flags@)),
        decreases args@.len() - i,
    {
        let a = line_chars(args[i].as_str());
        assert(a@ == all[i as int]);
        proof {
            reveal_strlit("-h");
            reveal_strlit("--help");
            reveal_strlit("-v");
            reveal_strlit("--verbose");
            reveal_strlit("run");
            reveal_strlit("build");
            reveal_strlit(".c");
            reveal_strlit(".o");
        }
        assert(all.subrange(1, i + 1).drop_last() =~= all.subrange(1, i as int));
        if is_text(&a, "-h") || is_text(&a, "--help") {
            assert(all.subrange(1, args@.len() as int)[i - 1] == all[i as int]);
            return Command::Help;
        }
        if is_text(&a, "-v") || is_text(&a, "--verbose") {
            verbose = true;
        } else if is_text(&a, "run") && positional.len() == 0 {
            run = true;
        } else if is_text(&a, "build") && positional.len() == 0 {
        } else if a.len() > 0 && a[0] == '-' {
            link_flags.push(args[i].clone());
        } else if ends_with_text(&a, ".c") || ends_with_text(&a, ".o") {
            link_flags.push(args[i].clone());
        } else {
            positional.push(args[i].clone());
        }
        i = i + 1;
    }
    let ghost rest = all.subrange(1, args@.len() as int);
    assert(rest =~= all.subrange(1, i as int));
    assert forall|j: int| 0 <= j < rest.len() implies !is_help(#[trigger] rest[j]) by {
        assert(rest[j] == all[j + 1]);
    }
    if positional.len() == 0 {
        return Command::Usage;
    }
    Command::Compile { verbose, run, positional, link_flags }
}

} // verus!

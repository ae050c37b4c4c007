//! Small character-level string helpers shared by the rest of the library.

use vstd::prelude::*;
pub use vstd::string::StrSliceExecFns;

verus! {

/// Appends one character to a `String` (std `String::push`).
/// Trusted: the new contents are the old contents followed by `c`.
#[verifier::external_body]
pub(crate) fn push_char(s: &mut String, c: char)
    ensures
        final(s)@ == old(s)@.push(c),
{
    s.push(c);
}

/// The characters of `s`, in order.
pub fn to_chars(s: &str) -> (res: Vec<char>)
    ensures
        res@ == s@,
{
    let mut res: Vec<char> = Vec::new();
    for c in it: s.chars()
        invariant
            res@ == it.seq().take(it.index() as int),
            it.seq() == s@,
    {
        res.push(c);
    }
    res
}

/// The code point of `c`.
pub fn char_code(c: char) -> (u: u32)
    ensures
        u as int == c as int,
{
    c as u32
}

/// The first `n` characters of `s` (all of `s` when it is shorter).
pub open spec fn char_prefix(s: Seq<char>, n: nat) -> Seq<char> {
    if s.len() <= n {
        s
    } else {
        s.take(n as int)
    }
}

/// The strings of `ts` joined with `sep` between neighbours.
pub open spec fn joined(ts: Seq<Seq<char>>, sep: Seq<char>) -> Seq<char>
    decreases ts.len(),
{
    if ts.len() == 0 {
        Seq::empty()
    } else if ts.len() == 1 {
        ts[0]
    } else {
        joined(ts.drop_last(), sep) + sep + ts.last()
    }
}

/// The strings of `ts` one after another.
pub open spec fn concat_all(ts: Seq<Seq<char>>) -> Seq<char>
    decreases ts.len(),
{
    if ts.len() == 0 {
        Seq::empty()
    } else {
        concat_all(ts.drop_last()) + ts.last()
    }
}

/// A string holding the first `n` characters of `s`.
pub fn prefix_chars(s: &str, n: usize) -> (res: String)
    ensures
        res@ == char_prefix(s@, n as nat),
{
    let cs = to_chars(s);
    let mut out = String::new();
    let mut i: usize = 0;
    while i < cs.len() && i < n
        invariant
            cs@ == s@,
            i <= cs@.len(),
            i <= n,
            out@ == s@.take(i as int),
        decreases cs@.len() - i,
    {
        push_char(&mut out, cs[i]);
        i = i + 1;
        proof {
            assert(out@ =~= s@.take(i as int));
        }
    }
    proof {
        if s@.len() <= n {
            assert(s@.take(i as int) =~= s@);
        }
    }
    out
}

/// `s` with every line feed replaced by a space.
pub open spec fn newlines_to_spaces(s: Seq<char>) -> Seq<char> {
    Seq::new(s.len(), |i: int| if s[i] == '\n' { ' ' } else { s[i] })
}

/// A one-line preview: the first `n` characters with line feeds as spaces,
/// and an ellipsis when something was cut.
pub open spec fn preview_spec(s: Seq<char>, n: nat) -> Seq<char> {
    newlines_to_spaces(char_prefix(s, n)) + if s.len() > n {
        seq!['\u{2026}']
    } else {
        Seq::empty()
    }
}

/// A one-line preview of `s`, at most `max_chars` characters before the
/// ellipsis; counted in characters, never splitting one.
pub fn preview(s: &str, max_chars: usize) -> (res: String)
    ensures
        res@ == preview_spec(s@, max_chars as nat),
{
    let cs = to_chars(s);
    let mut out = String::new();
    let mut i: usize = 0;
    while i < cs.len() && i < max_chars
        invariant
            cs@ == s@,
            i <= cs@.len(),
            i <= max_chars,
            out@ == newlines_to_spaces(s@.take(i as int)),
        decreases cs@.len() - i,
    {
        let c = cs[i];
        if c == '\n' {
            push_char(&mut out, ' ');
        } else {
            push_char(&mut out, c);
        }
        i = i + 1;
        proof {
            assert(out@ =~= newlines_to_spaces(s@.take(i as int)));
        }
    }
    proof {
        if s@.len() <= max_chars {
            assert(s@.take(i as int) =~= s@);
        }
    }
    if cs.len() > max_chars {
        push_char(&mut out, '\u{2026}');
    }
    proof {
        assert(out@ =~= preview_spec(s@, max_chars as nat));
    }
    out
}

/// The two strings are equal.
pub fn str_eq(a: &str, b: &str) -> (res: bool)
    ensures
        res == (a@ == b@),
{
    let x: String = a.to_owned();
    let y: String = b.to_owned();
    x == y
}

/// `s` begins with `p`.
pub fn starts_with(s: &str, p: &str) -> (res: bool)
    ensures
        res == (s@.len() >= p@.len() && s@.take(p@.len() as int) == p@),
{
    let sc = to_chars(s);
    let pc = to_chars(p);
    if sc.len() < pc.len() {
        return false;
    }
    let mut i: usize = 0;
    while i < pc.len()
        invariant
            pc@ == p@,
            sc@ == s@,
            s@.len() >= p@.len(),
            i <= pc@.len(),
            forall|j: int| 0 <= j < i ==> s@[j] == p@[j],
        decreases pc@.len() - i,
    {
        if sc[i] != pc[i] {
            proof {
                assert(s@.take(p@.len() as int)[i as int] != p@[i as int]);
            }
            return false;
        }
        i = i + 1;
    }
    proof {
        assert(s@.take(p@.len() as int) =~= p@);
    }
    true
}

/// The Unicode `White_Space` characters (what `char::is_whitespace` tests).
pub open spec fn is_white_space(c: char) -> bool {
    let u = c as int;
    ||| 0x9 <= u <= 0xd
    ||| u == 0x20
    ||| u == 0x85
    ||| u == 0xa0
    ||| u == 0x1680
    ||| 0x2000 <= u <= 0x200a
    ||| u == 0x2028
    ||| u == 0x2029
    ||| u == 0x202f
    ||| u == 0x205f
    ||| u == 0x3000
}

/// Whether `c` is white space.
pub fn white_space(c: char) -> (res: bool)
    ensures
        res == is_white_space(c),
{
    let u = char_code(c);
    (0x9 <= u && u <= 0xd) || u == 0x20 || u == 0x85 || u == 0xa0 || u == 0x1680 || (0x2000 <= u && u
        <= 0x200a) || u == 0x2028 || u == 0x2029 || u == 0x202f || u == 0x205f || u == 0x3000
}

/// `s` without leading white space.
pub open spec fn trim_start_spec(s: Seq<char>) -> Seq<char>
    decreases s.len(),
{
    if s.len() > 0 && is_white_space(s[0]) {
        trim_start_spec(s.drop_first())
    } else {
        s
    }
}

/// `s` without trailing white space.
pub open spec fn trim_end_spec(s: Seq<char>) -> Seq<char>
    decreases s.len(),
{
    if s.len() > 0 && is_white_space(s.last()) {
        trim_end_spec(s.drop_last())
    } else {
        s
    }
}

/// `s` without leading and trailing white space.
pub open spec fn trim_spec(s: Seq<char>) -> Seq<char> {
    trim_end_spec(trim_start_spec(s))
}

proof fn lemma_trim_start_skip(s: Seq<char>, i: int)
    requires
        0 <= i <= s.len(),
        forall|j: int| 0 <= j < i ==> is_white_space(#[trigger] s[j]),
    ensures
        trim_start_spec(s) == trim_start_spec(s.skip(i)),
    decreases i,
{
    if i > 0 {
        assert(s.drop_first().skip(i - 1) =~= s.skip(i));
        lemma_trim_start_skip(s.drop_first(), i - 1);
    } else {
        assert(s.skip(0) =~= s);
    }
}

proof fn lemma_trim_end_take(s: Seq<char>, k: int)
    requires
        0 <= k <= s.len(),
        forall|j: int| k <= j < s.len() ==> is_white_space(#[trigger] s[j]),
    ensures
        trim_end_spec(s) == trim_end_spec(s.take(k)),
    decreases s.len() - k,
{
    if k < s.len() {
        assert(s.drop_last().take(k) =~= s.take(k));
        lemma_trim_end_take(s.drop_last(), k);
    } else {
        assert(s.take(k) =~= s);
    }
}

/// `s` without leading and trailing white space.
pub fn trim(s: &str) -> (res: String)
    ensures
        res@ == trim_spec(s@),
{
    let cs = to_chars(s);
    let mut a: usize = 0;
    while a < cs.len() && white_space(cs[a])
        invariant
            cs@ == s@,
            a <= cs@.len(),
            forall|j: int| 0 <= j < a ==> is_white_space(#[trigger] s@[j]),
        decreases cs@.len() - a,
    {
        a = a + 1;
    }
    let ghost t = s@.skip(a as int);
    proof {
        lemma_trim_start_skip(s@, a as int);
        if a < cs.len() {
            assert(t.len() > 0 && !is_white_space(t[0]));
        }
        assert(trim_start_spec(t) == t);
    }
    let mut b: usize = cs.len();
    while b > a && white_space(cs[b - 1])
        invariant
            cs@ == s@,
            a <= b <= cs@.len(),
            t == s@.skip(a as int),
            forall|j: int| b - a <= j < t.len() ==> is_white_space(#[trigger] t[j]),
        decreases b,
    {
        b = b - 1;
    }
    let ghost u = t.take(b - a);
    proof {
        lemma_trim_end_take(t, b - a);
        if b > a {
            assert(!is_white_space(u.last()));
        }
        assert(trim_end_spec(u) == u);
    }
    let mut out = String::new();
    let mut i: usize = a;
    while i < b
        invariant
            cs@ == s@,
            a <= i <= b <= cs@.len(),
            t == s@.skip(a as int),
            u == t.take(b - a),
            out@ == u.take(i - a),
        decreases b - i,
    {
        push_char(&mut out, cs[i]);
        i = i + 1;
        proof {
            assert(out@ =~= u.take(i - a));
        }
    }
    proof {
        assert(u.take(b - a) =~= u);
    }
    out
}

/// Lines split off so far and the line being read, after reading `s`.
pub open spec fn lines_acc(s: Seq<char>) -> (Seq<Seq<char>>, Seq<char>)
    decreases s.len(),
{
    if s.len() == 0 {
        (Seq::empty(), Seq::empty())
    } else {
        let (ls, cur) = lines_acc(s.drop_last());
        if s.last() == '\n' {
            (ls.push(cur), Seq::empty())
        } else {
            (ls, cur.push(s.last()))
        }
    }
}

/// A line without its trailing carriage return.
pub open spec fn strip_cr(l: Seq<char>) -> Seq<char> {
    if l.len() > 0 && l.last() == '\r' {
        l.drop_last()
    } else {
        l
    }
}

/// The lines of `s` as `str::lines` yields them: split at line feeds, a
/// final empty piece dropped, a trailing carriage return removed from each.
pub open spec fn lines_spec(s: Seq<char>) -> Seq<Seq<char>> {
    let (ls, cur) = lines_acc(s);
    let all = if cur.len() > 0 {
        ls.push(cur)
    } else {
        ls
    };
    Seq::new(all.len(), |i: int| strip_cr(all[i]))
}

fn strip_cr_string(l: &Vec<char>) -> (res: String)
    ensures
        res@ == strip_cr(l@),
{
    let n = if l.len() > 0 && l[l.len() - 1] == '\r' {
        l.len() - 1
    } else {
        l.len()
    };
    let mut out = String::new();
    let mut i: usize = 0;
    while i < n
        invariant
            n <= l@.len(),
            i <= n,
            out@ == l@.take(i as int),
            strip_cr(l@) == l@.take(n as int),
        decreases n - i,
    {
        push_char(&mut out, l[i]);
        i = i + 1;
        proof {
            assert(out@ =~= l@.take(i as int));
        }
    }
    proof {
        if n == l@.len() {
            assert(l@.take(n as int) =~= l@);
        }
    }
    out
}

/// The lines of `s`, as `str::lines` yields them.
pub fn lines(s: &str) -> (res: Vec<String>)
    ensures
        Seq::new(res@.len(), |i: int| res@[i]@) == lines_spec(s@),
{
    let cs = to_chars(s);
    let mut done: Vec<Vec<char>> = Vec::new();
    let mut cur: Vec<char> = Vec::new();
    let mut i: usize = 0;
    while i < cs.len()
        invariant
            cs@ == s@,
            i <= cs@.len(),
            (Seq::new(done@.len(), |k: int| done@[k]@), cur@) == lines_acc(s@.take(i as int)),
        decreases cs@.len() - i,
    {
        proof {
            assert(s@.take(i as int + 1).drop_last() =~= s@.take(i as int));
        }
        let ghost before = Seq::new(done@.len(), |k: int| done@[k]@);
        if cs[i] == '\n' {
            let line = cur;
            done.push(line);
            cur = Vec::new();
            proof {
                assert(Seq::new(done@.len(), |k: int| done@[k]@) =~= before.push(done@[done@.len() - 1]@));
            }
        } else {
            cur.push(cs[i]);
        }
        i = i + 1;
    }
    proof {
        assert(s@.take(cs@.len() as int) =~= s@);
    }
    if cur.len() > 0 {
        done.push(cur);
    }
    let ghost all = Seq::new(done@.len(), |k: int| done@[k]@);
    proof {
        let (ls, c) = lines_acc(s@);
        if c.len() > 0 {
            assert(all =~= ls.push(c));
        } else {
            assert(all =~= ls);
        }
    }
    let mut out: Vec<String> = Vec::new();
    let mut j: usize = 0;
    while j < done.len()
        invariant
            j <= done@.len(),
            all == Seq::new(done@.len(), |k: int| done@[k]@),
            Seq::new(out@.len(), |k: int| out@[k]@) == Seq::new(j as nat, |k: int| strip_cr(all[k])),
        decreases done@.len() - j,
    {
        let ghost b = Seq::new(out@.len(), |k: int| out@[k]@);
        out.push(strip_cr_string(&done[j]));
        proof {
            assert(Seq::new(out@.len(), |k: int| out@[k]@) =~= b.push(strip_cr(all[j as int])));
            assert(Seq::new((j + 1) as nat, |k: int| strip_cr(all[k])) =~= Seq::new(
                j as nat,
                |k: int| strip_cr(all[k]),
            ).push(strip_cr(all[j as int])));
        }
        j = j + 1;
    }
    out
}

} // verus!

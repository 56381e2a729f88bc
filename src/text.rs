use vstd::prelude::*;

verus! {

/// Relies on `String::push`: appends one character at the end.
#[verifier::external_body]
pub(crate) fn push_char(s: &mut String, c: char)
    ensures
        final(s)@ == old(s)@.push(c),
{
    s.push(c)
}

/// The characters of `s`, one by one.
pub fn chars_of(s: &str) -> (r: Vec<char>)
    ensures
        r@ == s@,
{
    broadcast use vstd::string::group_string_axioms;
    let mut r: Vec<char> = Vec::new();
    for c in it: s.chars()
        invariant
            it.seq() == s@,
            r@ == s@.take(it.index() as int),
    {
        r.push(c);
    }
    r
}

/// A line as `str::lines` yields it: a `\r` right before the `\n` is dropped.
pub open spec fn strip_cr(l: Seq<char>) -> Seq<char> {
    if l.len() > 0 && l.last() == '\r' {
        l.drop_last()
    } else {
        l
    }
}

/// The lines finished so far and the line being read, after reading `s`.
pub open spec fn lines_upto(s: Seq<char>) -> (Seq<Seq<char>>, Seq<char>)
    decreases s.len(),
{
    if s.len() == 0 {
        (seq![], seq![])
    } else {
        let (done, cur) = lines_upto(s.drop_last());
        if s.last() == '\n' {
            (done.push(strip_cr(cur)), seq![])
        } else {
            (done, cur.push(s.last()))
        }
    }
}

/// The lines of `s`: split at each `\n`, no empty line after a final `\n`.
pub open spec fn lines_of(s: Seq<char>) -> Seq<Seq<char>> {
    let (done, cur) = lines_upto(s);
    if cur.len() == 0 {
        done
    } else {
        done.push(cur)
    }
}

/// The views of a sequence of strings.
pub open spec fn views(v: Seq<String>) -> Seq<Seq<char>> {
    v.map_values(|s: String| s@)
}

fn strip_cr_exec(l: Vec<char>) -> (r: String)
    ensures
        r@ == strip_cr(l@),
{
    let mut n: usize = l.len();
    if n > 0 && l[n - 1] == '\r' {
        n = n - 1;
    }
    let mut r = String::new();
    let mut i: usize = 0;
    while i < n
        invariant
            n <= l.len(),
            i <= n,
            n == strip_cr(l@).len(),
            strip_cr(l@) == l@.take(n as int),
            r@ == l@.take(i as int),
        decreases n - i,
    {
        push_char(&mut r, l[i]);
        assert(l@.take(i + 1) == l@.take(i as int).push(l@[i as int]));
        i = i + 1;
    }
    r
}

fn string_of(l: &Vec<char>) -> (r: String)
    ensures
        r@ == l@,
{
    let mut r = String::new();
    let mut i: usize = 0;
    while i < l.len()
        invariant
            i <= l.len(),
            r@ == l@.take(i as int),
        decreases l.len() - i,
    {
        push_char(&mut r, l[i]);
        assert(l@.take(i + 1) == l@.take(i as int).push(l@[i as int]));
        i = i + 1;
    }
    assert(l@.take(l.len() as int) == l@);
    r
}

/// Splits `contents` into its lines.
pub fn split_lines(contents: &str) -> (r: Vec<String>)
    ensures
        views(r@) == lines_of(contents@),
{
    let s = chars_of(contents);
    let mut done: Vec<String> = Vec::new();
    let mut cur: Vec<char> = Vec::new();
    let mut i: usize = 0;
    while i < s.len()
        invariant
            i <= s.len(),
            s@ == contents@,
            lines_upto(s@.take(i as int)) == (views(done@), cur@),
        decreases s.len() - i,
    {
        let c = s[i];
        assert(s@.take(i + 1).drop_last() == s@.take(i as int));
        if c == '\n' {
            let line = strip_cr_exec(cur);
            done.push(line);
            cur = Vec::new();
        } else {
            cur.push(c);
        }
        assert(views(done@) == lines_upto(s@.take(i + 1)).0);
        i = i + 1;
    }
    assert(s@.take(s.len() as int) == s@);
    if cur.len() > 0 {
        let line = string_of(&cur);
        done.push(line);
    }
    assert(views(done@) == lines_of(contents@));
    done
}

} // verus!

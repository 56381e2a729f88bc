use vstd::prelude::*;
use colored::Colorize;
use crate::text::{chars_of, push_char};

verus! {

/// `q` occurs in `t` starting at position `i`.
pub open spec fn occurs_at(t: Seq<char>, q: Seq<char>, i: int) -> bool {
    0 <= i && i + q.len() <= t.len() && t.subrange(i, i + q.len()) == q
}

/// `q` occurs somewhere in `t` (the empty query occurs everywhere).
pub open spec fn contains(t: Seq<char>, q: Seq<char>) -> bool {
    exists|i: int| occurs_at(t, q, i)
}

/// The escape sequence that turns the terminal's foreground red.
pub open spec fn red_open() -> Seq<char> {
    seq!['\x1b', '[', '3', '1', 'm']
}

/// The escape sequence that resets the terminal's style.
pub open spec fn reset_seq() -> Seq<char> {
    seq!['\x1b', '[', '0', 'm']
}

/// A matched piece of a line, wrapped in red when `on` holds. A piece that holds
/// a reset sequence itself is never wrapped.
pub open spec fn painted(piece: Seq<char>, on: bool) -> Seq<char> {
    if on && !contains(piece, reset_seq()) {
        red_open() + piece + reset_seq()
    } else {
        piece
    }
}

/// `line` from position `from` on, with each occurrence of `q` in `key` found by a
/// left-to-right scan that skips over what it matched; the `j`-th occurrence is
/// painted as `paint[j]` says (not painted where `paint` has run out).
pub open spec fn marked(line: Seq<char>, key: Seq<char>, q: Seq<char>, from: int, paint: Seq<bool>) -> Seq<char>
    decreases line.len() - from,
{
    if from < 0 || from >= line.len() {
        seq![]
    } else if q.len() > 0 && from + q.len() <= line.len() && occurs_at(key, q, from) {
        let on = paint.len() > 0 && paint[0];
        let rest = if paint.len() > 0 { paint.drop_first() } else { paint };
        painted(line.subrange(from, from + q.len()), on) + marked(line, key, q, from + q.len(), rest)
    } else {
        seq![line[from]] + marked(line, key, q, from + 1, paint)
    }
}

/// `out` is `line` with the occurrences of `q` in `key` highlighted, each one
/// painted or not. Offsets in `key` are used in `line` only when the two have the
/// same length; otherwise `line` stays as it is.
pub open spec fn rendering(line: Seq<char>, key: Seq<char>, q: Seq<char>, out: Seq<char>) -> bool {
    if key.len() == line.len() {
        exists|paint: Seq<bool>| out == marked(line, key, q, 0, paint)
    } else {
        out == line
    }
}

/// What a matching line turns into: highlighted, or left as it is.
pub open spec fn shows(line: Seq<char>, key: Seq<char>, q: Seq<char>, highlight: bool, out: Seq<char>) -> bool {
    if highlight {
        rendering(line, key, q, out)
    } else {
        out == line
    }
}

/// Relies on `colored`'s `Colorize::red` and the `Display` of `ColoredString`:
/// the text comes back either as it is (colouring switched off) or between the
/// red and the reset escape sequences, as long as it holds no reset sequence.
#[verifier::external_body]
fn paint_red(s: &str) -> (r: String)
    requires
        !contains(s@, reset_seq()),
    ensures
        r@ == s@ || r@ == red_open() + s@ + reset_seq(),
{
    s.red().to_string()
}

/// Whether `q` occurs in `t` at position `i`.
pub fn occurs_at_exec(t: &Vec<char>, q: &Vec<char>, i: usize) -> (r: bool)
    ensures
        r == occurs_at(t@, q@, i as int),
{
    if i > t.len() || q.len() > t.len() - i {
        return false;
    }
    let mut j: usize = 0;
    while j < q.len()
        invariant
            i + q.len() <= t.len(),
            j <= q.len(),
            forall|k: int| 0 <= k < j ==> t@[i + k] == q@[k],
        decreases q.len() - j,
    {
        if t[i + j] != q[j] {
            assert(t@.subrange(i as int, i + q.len())[j as int] != q@[j as int]);
            return false;
        }
        j = j + 1;
    }
    assert(t@.subrange(i as int, i + q.len()) == q@);
    true
}

/// Whether `q` occurs anywhere in `t`.
pub fn contains_exec(t: &Vec<char>, q: &Vec<char>) -> (r: bool)
    ensures
        r == contains(t@, q@),
{
    if q.len() > t.len() {
        return false;
    }
    let n: usize = t.len() - q.len();
    let mut i: usize = 0;
    loop
        invariant
            q.len() <= t.len(),
            n == t.len() - q.len(),
            i <= n,
            forall|k: int| 0 <= k < i ==> !occurs_at(t@, q@, k),
        decreases n - i,
    {
        if occurs_at_exec(t, q, i) {
            return true;
        }
        if i == n {
            return false;
        }
        i = i + 1;
    }
}

fn reset_chars() -> (r: Vec<char>)
    ensures
        r@ == reset_seq(),
{
    let r = vec!['\x1b', '[', '0', 'm'];
    assert(r@ == reset_seq());
    r
}

proof fn lemma_marked_end(line: Seq<char>, key: Seq<char>, q: Seq<char>, from: int, paint: Seq<bool>)
    requires
        from >= line.len(),
    ensures
        marked(line, key, q, from, paint) == Seq::<char>::empty(),
{
}

/// `line` with the occurrences of `q` in `key` highlighted.
fn highlight_line(line: &Vec<char>, key: &Vec<char>, q: &Vec<char>) -> (r: String)
    requires
        key@.len() == line@.len(),
    ensures
        exists|paint: Seq<bool>| r@ == marked(line@, key@, q@, 0, paint),
{
    let reset = reset_chars();
    let mut out = String::new();
    let ghost mut chosen: Seq<bool> = seq![];
    let mut i: usize = 0;
    while i < line.len()
        invariant
            key@.len() == line@.len(),
            reset@ == reset_seq(),
            i <= line.len(),
            forall|tail: Seq<bool>|
                #[trigger] marked(line@, key@, q@, 0, chosen + tail) == out@ + marked(
                    line@,
                    key@,
                    q@,
                    i as int,
                    tail,
                ),
        decreases line.len() - i,
    {
        if q.len() > 0 && q.len() <= line.len() - i && occurs_at_exec(key, q, i) {
            let mut piece: Vec<char> = Vec::new();
            let mut k: usize = 0;
            while k < q.len()
                invariant
                    i + q.len() <= line.len(),
                    k <= q.len(),
                    piece@ == line@.subrange(i as int, i + k),
                decreases q.len() - k,
            {
                piece.push(line[i + k]);
                k = k + 1;
            }
            let mut text = String::new();
            let mut k: usize = 0;
            while k < piece.len()
                invariant
                    k <= piece.len(),
                    text@ == piece@.take(k as int),
                decreases piece.len() - k,
            {
                push_char(&mut text, piece[k]);
                assert(piece@.take(k + 1) == piece@.take(k as int).push(piece@[k as int]));
                k = k + 1;
            }
            assert(piece@.take(piece.len() as int) == piece@);
            let shown = if contains_exec(&piece, &reset) {
                text
            } else {
                paint_red(text.as_str())
            };
            let ghost on: bool = shown@ != piece@;
            assert(painted(piece@, on) == shown@);
            let ghost old_out = out@;
            out.append(shown.as_str());
            proof {
                assert forall|tail: Seq<bool>|
                    #[trigger] marked(line@, key@, q@, 0, chosen.push(on) + tail) == out@ + marked(
                        line@,
                        key@,
                        q@,
                        i + q.len(),
                        tail,
                    ) by {
                    let t2 = seq![on] + tail;
                    assert(chosen.push(on) + tail == chosen + t2);
                    assert(t2.drop_first() == tail);
                    assert(marked(line@, key@, q@, 0, chosen + t2) == old_out + marked(
                        line@,
                        key@,
                        q@,
                        i as int,
                        t2,
                    ));
                }
                chosen = chosen.push(on);
            }
            i = i + q.len();
        } else {
            let ghost old_out = out@;
            push_char(&mut out, line[i]);
            proof {
                assert forall|tail: Seq<bool>|
                    #[trigger] marked(line@, key@, q@, 0, chosen + tail) == out@ + marked(
                        line@,
                        key@,
                        q@,
                        i + 1,
                        tail,
                    ) by {
                    assert(marked(line@, key@, q@, 0, chosen + tail) == old_out + marked(
                        line@,
                        key@,
                        q@,
                        i as int,
                        tail,
                    ));
                }
            }
            i = i + 1;
        }
    }
    proof {
        lemma_marked_end(line@, key@, q@, i as int, seq![]);
        assert(chosen + seq![] == chosen);
        assert(out@ == marked(line@, key@, q@, 0, chosen + seq![]));
    }
    out
}

/// The rendering of `line` when the occurrences of `query_key` are sought in `key`
/// (the line itself, or its lowercase form): `None` where there is none, else the
/// line, highlighted when `highlight` holds.
pub fn render_line(line: &str, key: &str, query_key: &str, highlight: bool) -> (r: Option<String>)
    ensures
        r is Some <==> contains(key@, query_key@),
        r matches Some(out) ==> shows(line@, key@, query_key@, highlight, out@),
{
    let k = chars_of(key);
    let q = chars_of(query_key);
    if !contains_exec(&k, &q) {
        return None;
    }
    let l = chars_of(line);
    if highlight && k.len() == l.len() {
        Some(highlight_line(&l, &k, &q))
    } else {
        Some(line.to_owned())
    }
}

} // verus!

verus! {

/// With an empty query nothing is marked: the line is shown as it is.
pub proof fn lemma_empty_query_shows_line(
    line: Seq<char>,
    key: Seq<char>,
    q: Seq<char>,
    highlight: bool,
    out: Seq<char>,
)
    requires
        q.len() == 0,
        shows(line, key, q, highlight, out),
    ensures
        out == line,
{
    if highlight && key.len() == line.len() {
        let paint = choose|paint: Seq<bool>| out == marked(line, key, q, 0, paint);
        lemma_marked_without_query(line, key, q, 0, paint);
        assert(line.subrange(0, line.len() as int) == line);
    }
}

proof fn lemma_marked_without_query(line: Seq<char>, key: Seq<char>, q: Seq<char>, from: int, paint: Seq<bool>)
    requires
        q.len() == 0,
        0 <= from <= line.len(),
    ensures
        marked(line, key, q, from, paint) == line.subrange(from, line.len() as int),
    decreases line.len() - from,
{
    if from < line.len() {
        lemma_marked_without_query(line, key, q, from + 1, paint);
        assert(line.subrange(from, line.len() as int) == seq![line[from]] + line.subrange(from + 1, line.len() as int));
    }
}

} // verus!

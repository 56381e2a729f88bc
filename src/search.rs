use vstd::prelude::*;
use crate::matching::{contains, render_line, shows};
use crate::text::{lines_of, split_lines, views};

verus! {

/// The lowercase form of a text, as `str::to_lowercase` gives it.
pub uninterp spec fn lower_of(s: Seq<char>) -> Seq<char>;

/// Relies on `str::to_lowercase`: the result depends on the characters alone, and
/// the empty text stays empty.
#[verifier::external_body]
fn lowercase(s: &str) -> (r: String)
    ensures
        r@ == lower_of(s@),
        s@.len() == 0 ==> r@.len() == 0,
{
    s.to_lowercase()
}

/// The text in which a line is searched: the line itself, or its lowercase form.
pub open spec fn key_of(line: Seq<char>, ignore_case: bool) -> Seq<char> {
    if ignore_case {
        lower_of(line)
    } else {
        line
    }
}

/// The lines of `ls` whose key holds the query's key, in their order.
pub open spec fn selected(ls: Seq<Seq<char>>, query: Seq<char>, ignore_case: bool) -> Seq<Seq<char>>
    decreases ls.len(),
{
    if ls.len() == 0 {
        seq![]
    } else {
        let prev = selected(ls.drop_last(), query, ignore_case);
        if contains(key_of(ls.last(), ignore_case), key_of(query, ignore_case)) {
            prev.push(ls.last())
        } else {
            prev
        }
    }
}

/// `r` is what a search for `query` in `contents` gives: one entry for each
/// selected line, in order, each shown as `shows` allows.
pub open spec fn search_result(
    query: Seq<char>,
    contents: Seq<char>,
    ignore_case: bool,
    highlight: bool,
    r: Seq<Seq<char>>,
) -> bool {
    let sel = selected(lines_of(contents), query, ignore_case);
    &&& r.len() == sel.len()
    &&& forall|k: int|
        0 <= k < r.len() ==> shows(
            #[trigger] sel[k],
            key_of(sel[k], ignore_case),
            key_of(query, ignore_case),
            highlight,
            r[k],
        )
}

/// Selects the lines of `contents` that hold `query`, compared as they are or, when
/// `ignore_case` holds, in lowercase; each one is highlighted when `highlight` holds.
pub fn search_lines(query: &str, contents: &str, ignore_case: bool, highlight: bool) -> (r: Vec<
    String,
>)
    ensures
        search_result(query@, contents@, ignore_case, highlight, views(r@)),
        query@.len() == 0 ==> views(r@) == lines_of(contents@),
        contents@.len() == 0 ==> r.len() == 0,
{
    let lines = split_lines(contents);
    let qk = if ignore_case {
        lowercase(query)
    } else {
        query.to_owned()
    };
    let ghost ls = lines_of(contents@);
    let mut r: Vec<String> = Vec::new();
    let mut i: usize = 0;
    while i < lines.len()
        invariant
            i <= lines.len(),
            views(lines@) == ls,
            qk@ == key_of(query@, ignore_case),
            query@.len() == 0 ==> qk@.len() == 0,
            search_result_upto(ls.take(i as int), query@, ignore_case, highlight, views(r@)),
            query@.len() == 0 ==> views(r@) == ls.take(i as int),
        decreases lines.len() - i,
    {
        let line = &lines[i];
        let key = if ignore_case {
            lowercase(line.as_str())
        } else {
            line.clone()
        };
        let ghost prev = views(r@);
        assert(ls.take(i + 1).drop_last() == ls.take(i as int));
        assert(ls.take(i + 1).last() == line@);
        match render_line(line.as_str(), key.as_str(), qk.as_str(), highlight) {
            Some(out) => {
                proof {
                    if query@.len() == 0 {
                        crate::matching::lemma_empty_query_shows_line(line@, key@, qk@, highlight, out@);
                    }
                }
                r.push(out);
                assert(views(r@) == prev.push(out@));
            },
            None => {
                proof {
                    if query@.len() == 0 {
                        assert(key@.subrange(0, 0) == qk@);
                        assert(crate::matching::occurs_at(key@, qk@, 0));
                    }
                }
            },
        }
        i = i + 1;
    }
    assert(ls.take(lines.len() as int) == ls);
    proof {
        if contents@.len() == 0 {
            assert(lines_of(contents@).len() == 0);
        }
    }
    r
}

/// `search_result` over a prefix of the lines of a text.
pub open spec fn search_result_upto(
    ls: Seq<Seq<char>>,
    query: Seq<char>,
    ignore_case: bool,
    highlight: bool,
    r: Seq<Seq<char>>,
) -> bool {
    let sel = selected(ls, query, ignore_case);
    &&& r.len() == sel.len()
    &&& forall|k: int|
        0 <= k < r.len() ==> shows(
            #[trigger] sel[k],
            key_of(sel[k], ignore_case),
            key_of(query, ignore_case),
            highlight,
            r[k],
        )
}

/// The lines of `contents` that hold `query` exactly, with each occurrence highlighted.
pub fn search(query: &str, contents: &str) -> (r: Vec<String>)
    ensures
        search_result(query@, contents@, false, true, views(r@)),
        query@.len() == 0 ==> views(r@) == lines_of(contents@),
        contents@.len() == 0 ==> r.len() == 0,
{
    search_lines(query, contents, false, true)
}

/// The lines of `contents` that hold `query` once both are lowercased, with each
/// occurrence highlighted.
pub fn search_case_insensitive(query: &str, contents: &str) -> (r: Vec<String>)
    ensures
        search_result(query@, contents@, true, true, views(r@)),
        query@.len() == 0 ==> views(r@) == lines_of(contents@),
        contents@.len() == 0 ==> r.len() == 0,
{
    search_lines(query, contents, true, true)
}

/// What a run of the tool searches for, where, and how.
#[derive(Debug, Clone)]
pub struct Config {
    pub query: String,
    pub filename: String,
    pub ignore_case: bool,
}

impl Config {
    /// The configuration from the command line's values and the value of the
    /// environment override, if it is set: the override, whatever it holds, makes
    /// the search case-insensitive.
    pub fn from_parts(
        query: String,
        filename: String,
        ignore_case: bool,
        case_insensitive_var: Option<String>,
    ) -> (r: Config)
        ensures
            r.query@ == query@,
            r.filename@ == filename@,
            r.ignore_case == (ignore_case || case_insensitive_var is Some),
    {
        let ignore_case = ignore_case || case_insensitive_var.is_some();
        Config { query, filename, ignore_case }
    }
}

/// The lines of `contents` that the search `config` describes selects, highlighted.
pub fn search_config(config: &Config, contents: &str) -> (r: Vec<String>)
    ensures
        search_result(config.query@, contents@, config.ignore_case, true, views(r@)),
{
    if config.ignore_case {
        search_case_insensitive(config.query.as_str(), contents)
    } else {
        search(config.query.as_str(), contents)
    }
}

} // verus!

//! Searching text for lines that contain a query, case-sensitively or not,
//! and the configuration the command-line front end hands in.

use vstd::prelude::*;

verus! {

/// What `str::to_lowercase` returns for the given characters.  The full
/// Unicode mapping takes pages to state; the result depends on the
/// characters alone, so it gets a name.
pub uninterp spec fn lower_of(s: Seq<char>) -> Seq<char>;

/// Relies on `str::to_lowercase`: the lowercase form of the string, which
/// is a function of the characters alone; an empty string stays empty.
#[verifier::external_body]
fn lowercase(s: &str) -> (r: String)
    ensures
        r@ == lower_of(s@),
        s@.len() == 0 ==> r@.len() == 0,
{
    s.to_lowercase()
}

/// Whether `needle` occurs in `hay` starting at position `k`.
pub open spec fn contains_at(hay: Seq<char>, needle: Seq<char>, k: int) -> bool {
    0 <= k && k + needle.len() <= hay.len() && hay.subrange(k, k + needle.len()) == needle
}

/// Whether `needle` occurs anywhere in `hay`.
pub open spec fn spec_contains(hay: Seq<char>, needle: Seq<char>) -> bool {
    exists|k: int| contains_at(hay, needle, k)
}

/// Whether `needle` occurs in `hay`, by scanning every starting position.
pub fn contains(hay: &str, needle: &str) -> (r: bool)
    ensures
        r == spec_contains(hay@, needle@),
{
    let n = hay.unicode_len();
    let m = needle.unicode_len();
    if m > n {
        proof {
            assert(forall|k: int| !contains_at(hay@, needle@, k));
        }
        return false;
    }
    let mut k: usize = 0;
    while k <= n - m
        invariant
            m <= n,
            n == hay@.len(),
            m == needle@.len(),
            k <= n - m + 1,
            forall|kk: int| 0 <= kk < k ==> !contains_at(hay@, needle@, kk),
        decreases n + 1 - m - k,
    {
        let mut j: usize = 0;
        let mut matches = true;
        while j < m
            invariant
                m <= n,
                n == hay@.len(),
                m == needle@.len(),
                k + m <= n,
                j <= m,
                matches == (forall|jj: int| 0 <= jj < j ==> hay@[k + jj] == needle@[jj]),
            decreases m - j,
        {
            if hay.get_char(k + j) != needle.get_char(j) {
                matches = false;
                proof {
                    assert(hay@[k + j] != needle@[j as int]);
                }
                j = m;
            } else {
                j = j + 1;
            }
        }
        if matches {
            proof {
                assert(hay@.subrange(k as int, k + needle@.len()) =~= needle@);
                assert(contains_at(hay@, needle@, k as int));
            }
            return true;
        }
        proof {
            if contains_at(hay@, needle@, k as int) {
                let sub = hay@.subrange(k as int, k + needle@.len());
                assert forall|jj: int| 0 <= jj < needle@.len() implies hay@[k + jj]
                    == needle@[jj] by {
                    assert(sub[jj] == hay@[k + jj]);
                }
            }
        }
        k = k + 1;
    }
    proof {
        assert forall|kk: int| !contains_at(hay@, needle@, kk) by {
            if 0 <= kk && kk + needle@.len() <= hay@.len() {
                assert(kk < k);
            }
        }
    }
    false
}

/// The position of the first newline in `s`, or its length if there is
/// none.
pub open spec fn first_nl(s: Seq<char>) -> nat
    decreases s.len(),
{
    if s.len() == 0 {
        0
    } else if s[0] == '\n' {
        0
    } else {
        1 + first_nl(s.drop_first())
    }
}

/// A line with a trailing carriage return (the first half of a `\r\n`
/// ending) stripped.
pub open spec fn strip_cr(l: Seq<char>) -> Seq<char> {
    if l.len() > 0 && l.last() == '\r' {
        l.drop_last()
    } else {
        l
    }
}

/// The lines of a text, split at `\n` or `\r\n`, the final line ending
/// optional — the splitting `str::lines` performs.
pub open spec fn spec_lines(s: Seq<char>) -> Seq<Seq<char>>
    decreases s.len(),
{
    if s.len() == 0 {
        Seq::empty()
    } else {
        let i = first_nl(s);
        if i >= s.len() {
            seq![s]
        } else {
            seq![strip_cr(s.take(i as int))] + spec_lines(s.skip(i as int + 1))
        }
    }
}

/// `first_nl` is pinned down by its characterisation: no newline before it,
/// and a newline (or the end) at it.
proof fn lemma_first_nl_unique(s: Seq<char>, i: int)
    requires
        0 <= i <= s.len(),
        forall|j: int| 0 <= j < i ==> s[j] != '\n',
        i < s.len() ==> s[i] == '\n',
        i == s.len() ==> forall|j: int| 0 <= j < s.len() ==> s[j] != '\n',
    ensures
        i == first_nl(s),
    decreases s.len(),
{
    if s.len() == 0 {
    } else if s[0] == '\n' {
        assert(i == 0);
    } else {
        assert(i >= 1);
        let t = s.drop_first();
        assert forall|j: int| 0 <= j < i - 1 implies t[j] != '\n' by {
            assert(t[j] == s[j + 1]);
        }
        if i - 1 < t.len() {
            assert(t[i - 1] == s[i]);
        } else {
            assert forall|j: int| 0 <= j < t.len() implies t[j] != '\n' by {
                assert(t[j] == s[j + 1]);
            }
        }
        lemma_first_nl_unique(t, i - 1);
    }
}

/// Splits a text into its lines, exactly as `spec_lines` describes.
pub fn split_lines<'a>(contents: &'a str) -> (lines: Vec<&'a str>)
    ensures
        lines.deep_view() == spec_lines(contents@),
{
    let n = contents.unicode_len();
    let mut result: Vec<&'a str> = Vec::new();
    let mut start: usize = 0;
    let mut i: usize = 0;
    proof {
        assert(result.deep_view() =~= Seq::<Seq<char>>::empty());
        assert(contents@.skip(0) =~= contents@);
        assert(result.deep_view() + spec_lines(contents@) =~= spec_lines(contents@));
    }
    while i < n
        invariant
            n == contents@.len(),
            start <= i <= n,
            forall|j: int| start <= j < i ==> contents@[j] != '\n',
            spec_lines(contents@) == result.deep_view() + spec_lines(
                contents@.skip(start as int),
            ),
        decreases n - i,
    {
        if contents.get_char(i) == '\n' {
            let mut end = i;
            if end > start && contents.get_char(end - 1) == '\r' {
                end = end - 1;
            }
            let line = contents.substring_char(start, end);
            proof {
                let rest = contents@.skip(start as int);
                assert forall|j: int| 0 <= j < i - start implies rest[j] != '\n' by {
                    assert(rest[j] == contents@[start + j]);
                }
                assert(rest[i - start] == contents@[i as int]);
                lemma_first_nl_unique(rest, i - start);
                assert(first_nl(rest) == i - start);
                assert(rest.take(i - start) =~= contents@.subrange(start as int, i as int));
                assert(rest.skip(i - start + 1) =~= contents@.skip(i + 1));
                assert(strip_cr(contents@.subrange(start as int, i as int)) =~= line@);
            }
            proof {
                assert(spec_lines(contents@.skip(start as int)) =~~= seq![line@] + spec_lines(
                    contents@.skip(i + 1),
                ));
            }
            let ghost prev_dv = result.deep_view();
            result.push(line);
            proof {
                assert(result.deep_view() =~= prev_dv.push(line@));
                assert(prev_dv + (seq![line@] + spec_lines(contents@.skip(i + 1))) =~~= prev_dv.push(
                    line@,
                ) + spec_lines(contents@.skip(i + 1)));
            }
            start = i + 1;
        }
        i = i + 1;
    }
    if start < n {
        let line = contents.substring_char(start, n);
        let ghost prev_dv = result.deep_view();
        proof {
            let rest = contents@.skip(start as int);
            assert forall|j: int| 0 <= j < rest.len() implies rest[j] != '\n' by {
                assert(rest[j] == contents@[start + j]);
            }
            lemma_first_nl_unique(rest, rest.len() as int);
            assert(rest =~= line@);
            assert(spec_lines(rest) == seq![rest]);
        }
        result.push(line);
        proof {
            assert(result.deep_view() =~= prev_dv.push(line@));
            assert(prev_dv + seq![line@] =~~= prev_dv.push(line@));
            assert(result.deep_view() =~~= spec_lines(contents@));
        }
    } else {
        proof {
            assert(contents@.skip(start as int).len() == 0);
            assert(result.deep_view() + Seq::<Seq<char>>::empty() =~= result.deep_view());
            assert(result.deep_view() =~~= spec_lines(contents@));
        }
    }
    result
}

/// The lines of `contents` that contain `query`, in order.
pub fn search<'a>(query: &str, contents: &'a str) -> (r: Vec<&'a str>)
    ensures
        r.deep_view() == spec_lines(contents@).filter(
            |l: Seq<char>| spec_contains(l, query@),
        ),
{
    let lines = split_lines(contents);
    filter_containing(lines, query)
}

/// The lines of `contents` that contain `query` regardless of letter case,
/// in order: those whose lowercase form contains the lowercase form of the
/// query.
pub fn search_case_insensitive<'a>(query: &str, contents: &'a str) -> (r: Vec<&'a str>)
    ensures
        r.deep_view() == spec_lines(contents@).filter(
            |l: Seq<char>| spec_contains(lower_of(l), lower_of(query@)),
        ),
{
    let query_lower = lowercase(query);
    let lines = split_lines(contents);

    let ghost all = lines.deep_view();
    let ghost pred = |l: Seq<char>| spec_contains(lower_of(l), lower_of(query@));
    let mut result: Vec<&'a str> = Vec::new();
    let mut idx: usize = 0;
    proof {
        assert(all.subrange(0, 0).filter(pred) =~= Seq::empty());
        assert(result.deep_view() =~= Seq::<Seq<char>>::empty());
    }
    while idx < lines.len()
        invariant
            idx <= lines@.len(),
            all == lines.deep_view(),
            all.len() == lines@.len(),
            result.deep_view() == all.subrange(0, idx as int).filter(pred),
            pred == (|l: Seq<char>| spec_contains(lower_of(l), lower_of(query@))),
            query_lower@ == lower_of(query@),
        decreases lines@.len() - idx,
    {
        let line = lines[idx];
        proof {
            assert(all[idx as int] == lines@[idx as int]@);
            assert(line@ == all[idx as int]);
            assert(all.subrange(0, idx + 1).drop_last() =~= all.subrange(0, idx as int));
            assert(all.subrange(0, idx + 1).last() == all[idx as int]);
            reveal(Seq::filter);
        }
        let line_lower = lowercase(line);
        if contains(line_lower.as_str(), query_lower.as_str()) {
            result.push(line);
            proof {
                assert(result.deep_view() =~= all.subrange(0, idx as int).filter(pred).push(
                    line@,
                ));
            }
        }
        idx = idx + 1;
    }
    proof {
        assert(all.subrange(0, all.len() as int) =~= all);
    }
    result
}

/// Keeps the lines that contain `query`, in order.
fn filter_containing<'a>(lines: Vec<&'a str>, query: &str) -> (r: Vec<&'a str>)
    ensures
        r.deep_view() == lines.deep_view().filter(|l: Seq<char>| spec_contains(l, query@)),
{
    let ghost all = lines.deep_view();
    let ghost pred = |l: Seq<char>| spec_contains(l, query@);
    let mut result: Vec<&'a str> = Vec::new();
    let mut idx: usize = 0;
    proof {
        assert(all.subrange(0, 0).filter(pred) =~= Seq::empty());
        assert(result.deep_view() =~= Seq::<Seq<char>>::empty());
    }
    while idx < lines.len()
        invariant
            idx <= lines@.len(),
            all == lines.deep_view(),
            all.len() == lines@.len(),
            result.deep_view() == all.subrange(0, idx as int).filter(pred),
            pred == (|l: Seq<char>| spec_contains(l, query@)),
        decreases lines@.len() - idx,
    {
        let line = lines[idx];
        proof {
            assert(all[idx as int] == lines@[idx as int]@);
            assert(line@ == all[idx as int]);
            assert(all.subrange(0, idx + 1).drop_last() =~= all.subrange(0, idx as int));
            assert(all.subrange(0, idx + 1).last() == all[idx as int]);
            reveal(Seq::filter);
        }
        if contains(line, query) {
            result.push(line);
            proof {
                assert(result.deep_view() =~= all.subrange(0, idx as int).filter(pred).push(
                    line@,
                ));
            }
        }
        idx = idx + 1;
    }
    proof {
        assert(all.subrange(0, all.len() as int) =~= all);
    }
    result
}

/// What the command-line front end needs to run a search.
pub struct Config {
    query: String,
    file_path: String,
    case_sensitive: bool,
}

impl Config {
    /// The string to search for.
    pub closed spec fn spec_query(&self) -> Seq<char> {
        self.query@
    }

    /// The file to search in.
    pub closed spec fn spec_file_path(&self) -> Seq<char> {
        self.file_path@
    }

    /// Whether the search honours letter case.
    pub closed spec fn spec_case_sensitive(&self) -> bool {
        self.case_sensitive
    }

    /// Reads the configuration out of the argument list (the program name
    /// first, then the query, then the file path).  Case sensitivity is off
    /// when the environment asked for case-insensitive search; the front
    /// end hands that flag in as a plain value.
    pub fn new(args: Vec<String>, case_insensitive: bool) -> (r: Result<Config, &'static str>)
        ensures
            args@.len() < 2 ==> (r matches Err(m) && m@ == "Can not get query string"@),
            args@.len() == 2 ==> (r matches Err(m) && m@ == "Can not get file name"@),
            args@.len() >= 3 ==> (r matches Ok(c) && {
                &&& c.spec_query() == args@[1]@
                &&& c.spec_file_path() == args@[2]@
                &&& c.spec_case_sensitive() == !case_insensitive
            }),
    {
        if args.len() < 2 {
            return Err("Can not get query string");
        }
        if args.len() < 3 {
            return Err("Can not get file name");
        }
        let query = args[1].clone();
        let file_path = args[2].clone();
        Ok(Config { query, file_path, case_sensitive: !case_insensitive })
    }

    /// The string to search for.
    pub fn query(&self) -> (q: &String)
        ensures
            q@ == self.spec_query(),
    {
        &self.query
    }

    /// The file to search in.
    pub fn file_path(&self) -> (p: &String)
        ensures
            p@ == self.spec_file_path(),
    {
        &self.file_path
    }

    /// Whether the search honours letter case.
    pub fn case_sensitive(&self) -> (b: bool)
        ensures
            b == self.spec_case_sensitive(),
    {
        self.case_sensitive
    }
}

} // verus!

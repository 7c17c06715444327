use vstd::prelude::*;

use crate::text::push_char;

verus! {

/// Replaces every non-overlapping occurrence of `from` in `s` with `to`,
/// scanning left to right. An empty pattern leaves `s` unchanged.
pub open spec fn replace_all(s: Seq<char>, from: Seq<char>, to: Seq<char>) -> Seq<char>
    decreases s.len(),
{
    if from.len() == 0 || s.len() < from.len() {
        s
    } else if s.subrange(0, from.len() as int) == from {
        to + replace_all(s.skip(from.len() as int), from, to)
    } else {
        seq![s[0]] + replace_all(s.skip(1), from, to)
    }
}

/// Applies `replace_all` once per pair, first to last.
pub open spec fn apply_templates(s: Seq<char>, pairs: Seq<(Seq<char>, Seq<char>)>) -> Seq<char>
    decreases pairs.len(),
{
    if pairs.len() == 0 {
        s
    } else {
        apply_templates(replace_all(s, pairs.first().0, pairs.first().1), pairs.drop_first())
    }
}

/// The part of `s` after its last `/`, or all of `s` if it has none.
pub open spec fn last_segment(s: Seq<char>) -> Seq<char>
    decreases s.len(),
{
    if s.len() == 0 {
        Seq::empty()
    } else if s.last() == '/' {
        Seq::empty()
    } else {
        last_segment(s.drop_last()).push(s.last())
    }
}

/// The three substitution pairs derived from a stream URL and a timestamp.
pub open spec fn spec_templates(url: Seq<char>, ts: Seq<char>) -> Seq<(Seq<char>, Seq<char>)> {
    seq![("{url}"@, url), ("{source}"@, last_segment(url)), ("{timestamp}"@, ts)]
}

/// A command line with every metadata placeholder filled in.
pub open spec fn spec_augment(cli: Seq<char>, url: Seq<char>, ts: Seq<char>) -> Seq<char> {
    apply_templates(cli, spec_templates(url, ts))
}

/// True when `from` occurs in `s` starting at character `i`.
fn matches_at(s: &str, n: usize, i: usize, from: &str, m: usize) -> (r: bool)
    requires
        n == s@.len(),
        m == from@.len(),
        i + m <= n,
    ensures
        r == (s@.subrange(i as int, i + m) == from@),
{
    let mut j: usize = 0;
    while j < m
        invariant
            n == s@.len(),
            m == from@.len(),
            i + m <= n,
            j <= m,
            forall|k: int| 0 <= k < j ==> s@[i + k] == from@[k],
        decreases m - j,
    {
        if s.get_char(i + j) != from.get_char(j) {
            proof {
                assert(s@.subrange(i as int, i + m)[j as int] == s@[i + j]);
            }
            return false;
        }
        j += 1;
    }
    proof {
        assert(s@.subrange(i as int, i + m) =~= from@);
    }
    true
}

/// Replaces every occurrence of `from` in `s` with `to`, as
/// `replace_all` describes.
pub fn replace_all_str(s: &str, from: &str, to: &str) -> (r: String)
    ensures
        r@ == replace_all(s@, from@, to@),
{
    let n = s.unicode_len();
    let m = from.unicode_len();
    if m == 0 {
        return s.to_owned();
    }
    let mut out = String::new();
    let mut i: usize = 0;
    proof {
        assert(s@.skip(0) =~= s@);
        assert(Seq::<char>::empty() + replace_all(s@, from@, to@) =~= replace_all(
            s@,
            from@,
            to@,
        ));
    }
    while i < n
        invariant
            n == s@.len(),
            m == from@.len(),
            m > 0,
            i <= n,
            replace_all(s@, from@, to@) == out@ + replace_all(s@.skip(i as int), from@, to@),
        decreases n - i,
    {
        let ghost pre = out@ + replace_all(s@.skip(i as int), from@, to@);
        if m <= n - i && matches_at(s, n, i, from, m) {
            proof {
                assert(s@.skip(i as int).subrange(0, m as int) =~= s@.subrange(i as int, i + m));
                assert(s@.skip(i as int).skip(m as int) =~= s@.skip(i + m));
                assert((out@ + to@) + replace_all(s@.skip(i + m), from@, to@) =~= pre);
            }
            out.append(to);
            i += m;
        } else {
            let ghost prev = out@;
            proof {
                if i + m <= n {
                    assert(s@.skip(i as int).subrange(0, m as int) =~= s@.subrange(
                        i as int,
                        i + m,
                    ));
                }
                assert(s@.skip(i as int)[0] == s@[i as int]);
                assert(s@.skip(i as int).skip(1) =~= s@.skip(i + 1));
                assert(seq![s@[i as int]] + replace_all(s@.skip(i + 1), from@, to@)
                    =~= replace_all(s@.skip(i as int), from@, to@));
            }
            push_char(&mut out, s.get_char(i));
            proof {
                assert(out@ =~= prev + seq![s@[i as int]]);
                assert(out@ + replace_all(s@.skip(i + 1), from@, to@) =~= pre);
            }
            i += 1;
        }
    }
    proof {
        assert(s@.skip(n as int) =~= Seq::<char>::empty());
        assert(out@ + Seq::<char>::empty() =~= out@);
    }
    out
}

/// Fills metadata placeholders into a raw command line.
pub struct MetadataVariables;

impl MetadataVariables {
    /// The substitution pairs for one stream: the URL itself, its last
    /// path segment as the source name, and the given timestamp.
    pub fn templates(stream_url: &str, timestamp: &str) -> (r: Vec<(String, String)>)
        ensures
            r@.map_values(|p: (String, String)| (p.0@, p.1@)) == spec_templates(
                stream_url@,
                timestamp@,
            ),
    {
        let source = Self::source_of(stream_url);
        let mut r: Vec<(String, String)> = Vec::new();
        r.push(("{url}".to_owned(), stream_url.to_owned()));
        r.push(("{source}".to_owned(), source));
        r.push(("{timestamp}".to_owned(), timestamp.to_owned()));
        proof {
            assert(r@.map_values(|p: (String, String)| (p.0@, p.1@)) =~= spec_templates(
                stream_url@,
                timestamp@,
            ));
        }
        r
    }

    /// The last path segment of a stream URL, used as the source name.
    pub fn source_of(stream_url: &str) -> (r: String)
        ensures
            r@ == last_segment(stream_url@),
    {
        let n = stream_url.unicode_len();
        let mut r = String::new();
        let mut i: usize = 0;
        while i < n
            invariant
                n == stream_url@.len(),
                i <= n,
                r@ == last_segment(stream_url@.subrange(0, i as int)),
            decreases n - i,
        {
            let c = stream_url.get_char(i);
            proof {
                assert(stream_url@.subrange(0, i + 1).drop_last() =~= stream_url@.subrange(
                    0,
                    i as int,
                ));
                assert(stream_url@.subrange(0, i + 1).last() == stream_url@[i as int]);
            }
            if c == '/' {
                r = String::new();
            } else {
                push_char(&mut r, c);
            }
            i += 1;
        }
        proof {
            assert(stream_url@.subrange(0, n as int) =~= stream_url@);
        }
        r
    }

    /// Applies every substitution pair to the command line, in order.
    pub fn augment_cli_with_templates(cli: &str, templates: &Vec<(String, String)>) -> (r: String)
        ensures
            r@ == apply_templates(
                cli@,
                templates@.map_values(|p: (String, String)| (p.0@, p.1@)),
            ),
    {
        let ghost pairs = templates@.map_values(|p: (String, String)| (p.0@, p.1@));
        let mut result = cli.to_owned();
        let mut i: usize = 0;
        proof {
            assert(pairs.skip(0) =~= pairs);
        }
        while i < templates.len()
            invariant
                i <= templates@.len(),
                pairs == templates@.map_values(|p: (String, String)| (p.0@, p.1@)),
                apply_templates(cli@, pairs) == apply_templates(result@, pairs.skip(i as int)),
            decreases templates@.len() - i,
        {
            proof {
                assert(pairs.skip(i as int).first() == pairs[i as int]);
                assert(pairs.skip(i as int).drop_first() =~= pairs.skip(i + 1));
            }
            let pair = &templates[i];
            result = replace_all_str(result.as_str(), pair.0.as_str(), pair.1.as_str());
            i += 1;
        }
        proof {
            assert(pairs.skip(templates@.len() as int) =~= Seq::<(Seq<char>, Seq<char>)>::empty());
        }
        result
    }

    /// Fills the metadata placeholders in a raw command line with this
    /// stream's URL, source name and the current wall-clock timestamp.
    pub fn augment_cli(cli: &str, stream_url: &str) -> (r: String)
        ensures
            exists|ts: Seq<char>| r@ == spec_augment(cli@, stream_url@, ts),
    {
        let timestamp = Self::current_timestamp();
        let templates = Self::templates(stream_url, timestamp.as_str());
        let r = Self::augment_cli_with_templates(cli, &templates);
        proof {
            assert(exists|ts: Seq<char>| r@ == spec_augment(cli@, stream_url@, ts)) by {
                assert(r@ == spec_augment(cli@, stream_url@, timestamp@));
            }
        }
        r
    }

    /// Relies on `chrono::Local::now`, `chrono::Timelike::with_minute`
    /// and `chrono::DateTime::format`: the current local time, with the
    /// minute zeroed, rendered as year-month-day, a dash, hour and
    /// minute. The result depends on the clock, so nothing is promised
    /// of it.
    #[verifier::external_body]
    fn current_timestamp() -> (r: String) {
        let now = chrono::Local::now();
        let now = chrono::Timelike::with_minute(&now, 0).unwrap_or(now);
        format!("{}", now.format("%Y%m%d-%H%M"))
    }
}

} // verus!

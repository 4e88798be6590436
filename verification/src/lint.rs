//! The link check: how the answers to the url requests are classified and
//! reported.
use vstd::prelude::*;
use crate::text::string_from;

verus! {

/// How a url answered.
#[derive(Debug, Clone, Copy, PartialEq, Eq, Hash, Structural)]
pub enum UrlCondition {
    Normal,
    NotFound,
    Redirected,
    ServerError,
}

/// The condition of a url that answered with HTTP status `status`: 404 is not
/// found, 3xx a redirection, 5xx a server error.
pub open spec fn condition_of(status: u16) -> UrlCondition {
    if status == 404 {
        UrlCondition::NotFound
    } else if 300 <= status < 400 {
        UrlCondition::Redirected
    } else if 500 <= status < 600 {
        UrlCondition::ServerError
    } else {
        UrlCondition::Normal
    }
}

/// The condition of a url that answered with HTTP status `status`.
pub fn classify(status: u16) -> (r: UrlCondition)
    ensures
        r == condition_of(status),
{
    if status == 404 {
        UrlCondition::NotFound
    } else if 300 <= status && status < 400 {
        UrlCondition::Redirected
    } else if 500 <= status && status < 600 {
        UrlCondition::ServerError
    } else {
        UrlCondition::Normal
    }
}

/// The urls of `results` in condition `c`, in order.
pub open spec fn urls_with(results: Seq<(Seq<char>, UrlCondition)>, c: UrlCondition) -> Seq<Seq<char>>
    decreases results.len(),
{
    if results.len() == 0 {
        Seq::empty()
    } else {
        let p = urls_with(results.drop_last(), c);
        if results.last().1 == c { p.push(results.last().0) } else { p }
    }
}

/// A section of the report: its title and a line per url, nothing when there
/// is no url.
pub open spec fn section(title: Seq<char>, urls: Seq<Seq<char>>) -> Seq<Seq<char>> {
    if urls.len() == 0 {
        Seq::empty()
    } else {
        seq![title] + urls.map_values(|u: Seq<char>| "- "@ + u)
    }
}

/// The lines of the report of a link check: the urls not found, then the
/// redirected ones, then those with a server error.
pub open spec fn report_lines(results: Seq<(Seq<char>, UrlCondition)>) -> Seq<Seq<char>> {
    section("\nThe following URLs are 404:"@, urls_with(results, UrlCondition::NotFound)) + section(
        "\nThe following URLs have been redirected:"@,
        urls_with(results, UrlCondition::Redirected),
    ) + section("\nThe following URLs have a server error:"@, urls_with(results, UrlCondition::ServerError))
}

/// The views of the results of a link check.
pub open spec fn results_view(v: Seq<(String, UrlCondition)>) -> Seq<(Seq<char>, UrlCondition)> {
    v.map_values(|p: (String, UrlCondition)| (p.0@, p.1))
}

fn push_section(out: &mut Vec<String>, title: &str, results: &Vec<(String, UrlCondition)>, c: UrlCondition)
    ensures
        final(out)@.map_values(|s: String| s@) == old(out)@.map_values(|s: String| s@) + section(
            title@,
            urls_with(results_view(results@), c),
        ),
{
    let ghost rv = results_view(results@);
    let ghost start = out@.map_values(|s: String| s@);
    let mut lines: Vec<String> = Vec::new();
    let mut i: usize = 0;
    assert(rv.take(0) =~= Seq::<(Seq<char>, UrlCondition)>::empty());
    while i < results.len()
        invariant
            i <= results.len(),
            rv == results_view(results@),
            lines@.map_values(|s: String| s@) == urls_with(rv.take(i as int), c).map_values(
                |u: Seq<char>| "- "@ + u,
            ),
        decreases results.len() - i,
    {
        assert(rv.take(i + 1).drop_last() =~= rv.take(i as int));
        assert(rv.take(i + 1).last() == (results@[i as int].0@, results@[i as int].1));
        let ghost before = lines@.map_values(|s: String| s@);
        if results[i].1 == c {
            let mut l = string_from("- ");
            l.append(results[i].0.as_str());
            assert(urls_with(rv.take(i + 1), c) == urls_with(rv.take(i as int), c).push(results@[i as int].0@));
            lines.push(l);
            assert(lines@.map_values(|s: String| s@) =~= before.push("- "@ + results@[i as int].0@));
            assert(urls_with(rv.take(i + 1), c).map_values(|u: Seq<char>| "- "@ + u) =~= urls_with(
                rv.take(i as int),
                c,
            ).map_values(|u: Seq<char>| "- "@ + u).push("- "@ + results@[i as int].0@));
        } else {
            assert(urls_with(rv.take(i + 1), c) == urls_with(rv.take(i as int), c));
        }
        i = i + 1;
    }
    assert(rv.take(i as int) =~= rv);
    if lines.len() > 0 {
        out.push(string_from(title));
        let mut j: usize = 0;
        let ghost mid = out@.map_values(|s: String| s@);
        assert(mid =~= start.push(title@));
        while j < lines.len()
            invariant
                j <= lines.len(),
                out@.map_values(|s: String| s@) == mid + lines@.map_values(|s: String| s@).take(j as int),
            decreases lines.len() - j,
        {
            let ghost before = out@.map_values(|s: String| s@);
            let l = lines[j].clone();
            out.push(l);
            assert(out@.map_values(|s: String| s@) =~= before.push(lines@[j as int]@));
            j = j + 1;
            assert(out@.map_values(|s: String| s@) =~= mid + lines@.map_values(|s: String| s@).take(j as int));
        }
        assert(lines@.map_values(|s: String| s@).take(j as int) =~= lines@.map_values(|s: String| s@));
        assert(out@.map_values(|s: String| s@) =~= start + section(title@, urls_with(rv, c)));
    } else {
        assert(section(title@, urls_with(rv, c)) =~= Seq::<Seq<char>>::empty());
        assert(out@.map_values(|s: String| s@) =~= start + section(title@, urls_with(rv, c)));
    }
}

/// The lines of the report of a link check.
pub fn lint_report(results: &Vec<(String, UrlCondition)>) -> (r: Vec<String>)
    ensures
        r@.map_values(|s: String| s@) == report_lines(results_view(results@)),
{
    let mut out: Vec<String> = Vec::new();
    assert(out@.map_values(|s: String| s@) =~= Seq::<Seq<char>>::empty());
    push_section(&mut out, "\nThe following URLs are 404:", results, UrlCondition::NotFound);
    push_section(&mut out, "\nThe following URLs have been redirected:", results, UrlCondition::Redirected);
    push_section(&mut out, "\nThe following URLs have a server error:", results, UrlCondition::ServerError);
    assert(out@.map_values(|s: String| s@) =~= report_lines(results_view(results@)));
    out
}

} // verus!

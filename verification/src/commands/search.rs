//! Searching the web from the host.

use crate::text as t;
use vstd::prelude::*;
use vstd::string::*;

verus! {

#[derive(Debug, PartialEq, Eq)]
pub struct SearchCommand {
    pub query: Vec<String>,
    pub provider: String,
    pub count: usize,
    pub json: bool,
}

/// What is searched for: the words of the command; blanks alone are refused.
pub fn run_search(command: &SearchCommand) -> (r: Result<String, &'static str>)
    ensures
        match r {
            Ok(query) => query@ == t::joined(t::texts(command.query@), " "@) && t::trimmed(query@).len() > 0,
            Err(message) => t::trimmed(t::joined(t::texts(command.query@), " "@)).len() == 0 && message@
                == "search query is empty"@,
        },
{
    let query = t::join(&command.query, " ");
    if t::trim(query.as_str()).unicode_len() == 0 {
        Err("search query is empty")
    } else {
        Ok(query)
    }
}

#[derive(Debug, PartialEq, Eq)]
pub struct SearchResult<S> {
    pub title: S,
    pub url: S,
    pub snippet: S,
}

impl View for SearchResult<String> {
    type V = SearchResult<Seq<char>>;

    open spec fn view(&self) -> SearchResult<Seq<char>> {
        SearchResult {
            title: self.title@,
            url: self.url@,
            snippet: self.snippet@,
        }
    }
}

pub open spec fn results(v: Seq<SearchResult<String>>) -> Seq<SearchResult<Seq<char>>> {
    v.map_values(|x: SearchResult<String>| x@)
}

pub open spec fn result_line(x: SearchResult<Seq<char>>) -> Seq<char> {
    x.title + "\n  "@ + x.url + "\n  "@ + x.snippet + "\n"@
}

/// What is printed of the results.
pub fn search_lines(list: &Vec<SearchResult<String>>) -> (r: Vec<String>)
    ensures
        t::texts(r@) == if list@.len() == 0 {
            seq!["(no results)"@]
        } else {
            results(list@).map_values(|x: SearchResult<Seq<char>>| result_line(x))
        },
{
    if list.len() == 0 {
        return t::one_line("(no results)".to_owned());
    }
    let mut r: Vec<String> = Vec::new();
    let mut i: usize = 0;
    while i < list.len()
        invariant
            i <= list@.len(),
            r@.len() == i,
            forall|k: int| 0 <= k < i ==> (#[trigger] r@[k])@ == result_line(list@[k]@),
        decreases list@.len() - i,
    {
        let x = &list[i];
        r.push(
            x.title.clone().concat("\n  ").concat(x.url.as_str()).concat("\n  ").concat(x.snippet.as_str()).concat(
                "\n",
            ),
        );
        i += 1;
    }
    assert(t::texts(r@) =~= results(list@).map_values(|x: SearchResult<Seq<char>>| result_line(x)));
    r
}

} // verus!

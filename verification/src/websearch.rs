//! The web-search tool's registry surface: name, description, argument
//! schema, and the result-count clamp. The HTTP search itself runs with
//! the surrounding program's transport.

use vstd::prelude::*;

use vstd::string::StringExecFns;

verus! {

/// One web search hit.
#[derive(Clone, Debug)]
pub struct SearchResult {
    pub title: String,
    pub url: String,
    pub description: Option<String>,
    pub age: Option<String>,
}

/// Ghost model of a search hit.
pub struct SearchResultModel {
    pub title: Seq<char>,
    pub url: Seq<char>,
    pub description: Option<Seq<char>>,
    pub age: Option<Seq<char>>,
}

impl View for SearchResult {
    type V = SearchResultModel;

    open spec fn view(&self) -> SearchResultModel {
        SearchResultModel {
            title: self.title@,
            url: self.url@,
            description: match &self.description {
                Some(d) => Some(d@),
                None => None,
            },
            age: match &self.age {
                Some(a) => Some(a@),
                None => None,
            },
        }
    }
}

/// The text block for hit number `i` (numbering from one): the numbered
/// title, the indented URL, then the description and the age when present,
/// and a blank line.
pub open spec fn result_block(i: int, m: SearchResultModel) -> Seq<char> {
    crate::strings::dec_spec(i) + ". "@ + m.title + "\n   "@ + m.url + "\n"@ + (match m.description {
        Some(d) => "   "@ + d + "\n"@,
        None => Seq::empty(),
    }) + (match m.age {
        Some(a) => "   ("@ + a + ")\n"@,
        None => Seq::empty(),
    }) + "\n"@
}

/// The whole readable listing, hits numbered in order.
pub open spec fn results_text(rs: Seq<SearchResultModel>) -> Seq<char>
    decreases rs.len(),
{
    if rs.len() == 0 {
        Seq::empty()
    } else {
        results_text(rs.drop_last()) + result_block(rs.len() as int, rs.last())
    }
}

/// Format search hits as readable text.
#[verifier::rlimit(80)]
pub fn format_results(results: &Vec<SearchResult>) -> (r: String)
    requires
        results@.len() < 10000,
    ensures
        r@ == results_text(results@.map_values(|m: SearchResult| m@)),
{
    let ghost models = results@.map_values(|m: SearchResult| m@);
    let mut s = String::new();
    let n = results.len();
    let mut i: usize = 0;
    proof {
        assert(models.take(0) =~= Seq::<SearchResultModel>::empty());
        assert(s@ =~= results_text(models.take(0)));
    }
    while i < n
        invariant
            n == results@.len(),
            n < 10000,
            models == results@.map_values(|m: SearchResult| m@),
            i <= n,
            s@ == results_text(models.take(i as int)),
        decreases n - i,
    {
        let number = crate::strings::u64_to_string((i as u64) + 1);
        s.append(number.as_str());
        s.append(". ");
        s.append(results[i].title.as_str());
        s.append("\n   ");
        s.append(results[i].url.as_str());
        s.append("\n");
        match &results[i].description {
            Some(d) => {
                s.append("   ");
                s.append(d.as_str());
                s.append("\n");
            },
            None => {},
        }
        match &results[i].age {
            Some(a) => {
                s.append("   (");
                s.append(a.as_str());
                s.append(")\n");
            },
            None => {},
        }
        s.append("\n");
        i = i + 1;
        proof {
            assert(models.take(i as int).drop_last() =~= models.take(i as int - 1));
            assert(models.take(i as int).last() == models[i - 1]);
            assert(s@ =~= results_text(models.take(i as int - 1)) + result_block(
                i as int,
                models[i - 1],
            ));
            assert(s@ =~= results_text(models.take(i as int)));
        }
    }
    proof {
        assert(models.take(n as int) =~= models);
    }
    s
}

/// The text reported when a query matches nothing.
pub fn no_results_message(query: &str) -> (r: String)
    ensures
        r@ == "No results found for: "@ + query@,
{
    crate::strings::concat_str("No results found for: ", query)
}

/// Whether a query is blank after trimming; a blank query is refused
/// before any request is made.
pub fn query_is_blank(query: &str) -> (b: bool)
    ensures
        b == (crate::strings::trim_spec(query@).len() == 0),
{
    let t = crate::strings::trim_str(query);
    let chars = crate::strings::str_chars(t.as_str());
    chars.len() == 0
}

/// Web search backed by the Brave Search API.
pub struct WebSearchTool {
    pub api_key: String,
    pub count: u8,
}

impl WebSearchTool {
    /// Build the tool; the configured result count is clamped to 1..=20.
    pub fn new(api_key: &str, count: u8) -> (t: WebSearchTool)
        ensures
            t.api_key@ == api_key@,
            t.count == vstd::math::max(1, vstd::math::min(count as int, 20)),
    {
        let clamped = if count < 1 {
            1
        } else if count > 20 {
            20
        } else {
            count
        };
        WebSearchTool { api_key: api_key.to_owned(), count: clamped }
    }

    /// The registry name of the tool.
    pub fn name(&self) -> (n: &'static str)
        ensures
            n@ == "web_search"@,
    {
        "web_search"
    }

    /// What the model is told about the tool.
    pub fn description(&self) -> (d: &'static str)
        ensures
            d@.len() > 0,
    {
        let d = "Search the web using Brave Search. Returns titles, URLs, and snippets for the top results. Use when you need current information, facts, documentation, or any knowledge beyond your training data.";
        proof {
            reveal_strlit(
                "Search the web using Brave Search. Returns titles, URLs, and snippets for the top results. Use when you need current information, facts, documentation, or any knowledge beyond your training data.",
            );
        }
        d
    }

    /// The JSON-Schema text of the argument contract: a required `query`
    /// string, an optional result `count` (1..=20) and an optional
    /// `freshness` window.
    pub fn parameters_schema(&self) -> (s: &'static str)
        ensures
            s@.len() > 0,
    {
        let s = "{\"type\":\"object\",\"properties\":{\"query\":{\"type\":\"string\",\"description\":\"The search query\"},\"count\":{\"type\":\"integer\",\"description\":\"Number of results to return (1-20, default from config)\",\"minimum\":1,\"maximum\":20},\"freshness\":{\"type\":\"string\",\"enum\":[\"pd\",\"pw\",\"pm\",\"py\"],\"description\":\"Time filter: pd=past day, pw=past week, pm=past month, py=past year\"}},\"required\":[\"query\"]}";
        proof {
            reveal_strlit(
                "{\"type\":\"object\",\"properties\":{\"query\":{\"type\":\"string\",\"description\":\"The search query\"},\"count\":{\"type\":\"integer\",\"description\":\"Number of results to return (1-20, default from config)\",\"minimum\":1,\"maximum\":20},\"freshness\":{\"type\":\"string\",\"enum\":[\"pd\",\"pw\",\"pm\",\"py\"],\"description\":\"Time filter: pd=past day, pw=past week, pm=past month, py=past year\"}},\"required\":[\"query\"]}",
            );
        }
        s
    }

    /// Clamp a caller-supplied result count into 1..=20, defaulting to the
    /// configured count when none is given.
    pub fn effective_count(&self, requested: Option<u8>) -> (n: u8)
        ensures
            match requested {
                Some(c) => n == vstd::math::max(1, vstd::math::min(c as int, 20)),
                None => n == self.count,
            },
    {
        match requested {
            Some(c) => {
                if c < 1 {
                    1
                } else if c > 20 {
                    20
                } else {
                    c
                }
            },
            None => self.count,
        }
    }
}

} // verus!

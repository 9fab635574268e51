use rand::Rng;
use vstd::prelude::*;
use crate::text::{lines, lines_of, views};

verus! {

/// A number drawn from `0..n` by the thread's random generator (`rand::thread_rng`, then
/// `Rng::gen_range`). The draw is left open: only its range is stated.
#[verifier::external_body]
fn random_below(n: usize) -> (r: usize)
    requires
        n > 0,
    ensures
        r < n,
{
    rand::thread_rng().gen_range(0..n)
}

/// The user agents listed in `text`, one per line.
pub fn parse_user_agents(text: &str) -> (agents: Vec<String>)
    ensures
        views(agents@) == lines_of(text@),
{
    lines(text)
}

/// One of `agents`, drawn at random.
pub fn random_user_agent(agents: &Vec<String>) -> (agent: String)
    requires
        agents.len() > 0,
    ensures
        views(agents@).contains(agent@),
{
    let i = random_below(agents.len());
    let agent = agents[i].clone();
    assert(views(agents@)[i as int] == agent@);
    agent
}

/// An HTTPS request to make: where to, and which user agent to present.
pub struct Request {
    pub url: String,
    pub user_agent: String,
}

/// The HTTPS address of `uri`.
pub open spec fn https_url(uri: Seq<char>) -> Seq<char> {
    "https://"@ + uri
}

/// The HTTPS address is "https://" (eight characters) followed by exactly the uri.
pub proof fn lemma_https_url_parts(uri: Seq<char>)
    ensures
        https_url(uri).len() == 8 + uri.len(),
        https_url(uri).take(8) == "https://"@,
        https_url(uri).skip(8) == uri,
{
    reveal_strlit("https://");
    assert(https_url(uri).take(8) =~= "https://"@);
    assert(https_url(uri).skip(8) =~= uri);
}

/// A request for `https://{uri}` that presents a user agent drawn at random from `agents`.
pub fn request_to(uri: &String, agents: &Vec<String>) -> (req: Request)
    requires
        agents.len() > 0,
    ensures
        req.url@ == https_url(uri@),
        views(agents@).contains(req.user_agent@),
{
    let user_agent = random_user_agent(agents);
    let mut url = String::from_str("https://");
    url.append(uri.as_str());
    Request { url, user_agent }
}

} // verus!

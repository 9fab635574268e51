use crate::events::Type;
use crate::logger::{discovered_message, discovered_text, line, Level, LogLine};
use crate::modules::Module;
use vstd::prelude::*;

verus! {

/// The address of the file `word` with the extension `extension` (none when it is empty)
/// on `domain`.
pub open spec fn file_uri(domain: Seq<char>, word: Seq<char>, extension: Seq<char>) -> Seq<char> {
    domain + "/"@ + word + (if extension.len() > 0 {
        "."@ + extension
    } else {
        Seq::<char>::empty()
    })
}

/// The address is the domain, '/', the whole word, and then, whenever the extension is not
/// empty (whatever the word holds), '.' and the extension.
pub proof fn lemma_file_uri_parts(domain: Seq<char>, word: Seq<char>, extension: Seq<char>)
    ensures
        ({
            let u = file_uri(domain, word, extension);
            let w0 = domain.len() + 1;
            let w1 = w0 + word.len();
            &&& u.take(domain.len() as int) == domain
            &&& u[domain.len() as int] == '/'
            &&& u.subrange(w0 as int, w1 as int) == word
            &&& extension.len() == 0 ==> u.len() == w1
            &&& extension.len() > 0 ==> {
                &&& u.len() == w1 + 1 + extension.len()
                &&& u[w1 as int] == '.'
                &&& u.skip(w1 as int + 1) == extension
            }
        }),
{
    reveal_strlit("/");
    reveal_strlit(".");
    let u = file_uri(domain, word, extension);
    let w0 = domain.len() + 1;
    let w1 = w0 + word.len();
    assert(u.take(domain.len() as int) =~= domain);
    assert(u.subrange(w0 as int, w1 as int) =~= word);
    if extension.len() > 0 {
        assert(u.skip(w1 as int + 1) =~= extension);
    }
}

/// Looks for files on the domain, one word of a wordlist at a time.
pub struct ModuleEnumerateFiles {}

impl Default for ModuleEnumerateFiles {
    fn default() -> (m: ModuleEnumerateFiles) {
        Self::new()
    }
}

impl ModuleEnumerateFiles {
    pub fn new() -> (m: ModuleEnumerateFiles) {
        ModuleEnumerateFiles {}
    }

    /// The address to try for the wordlist entry `word`: "{domain}/{word}", followed by
    /// ".{extension}" when an extension is given.
    pub fn target(&self, domain: &String, word: &String, extension: &String) -> (uri: String)
        ensures
            uri@ == file_uri(domain@, word@, extension@),
    {
        let mut uri = domain.clone();
        uri.append("/");
        uri.append(word.as_str());
        if extension.as_str().unicode_len() > 0 {
            uri.append(".");
            uri.append(extension.as_str());
        } else {
            assert(uri@ + Seq::<char>::empty() =~= uri@);
        }
        uri
    }

    /// What to log once the request for `uri` has been answered with the HTTP status
    /// `status` (`None` when the request failed): the file exists when the status is 200.
    pub fn on_response(&self, uri: &String, status: Option<u16>) -> (l: Option<LogLine>)
        ensures
            l is Some <==> status == Some(200u16),
            l matches Some(l) ==> l.level == Level::Info && l.source@ == "enumerate:files"@
                && l.message@ == discovered_text(uri@, "' as an existing file"@),
    {
        match status {
            Some(code) => {
                if code == 200 {
                    Some(
                        line(
                            Level::Info,
                            "enumerate:files",
                            discovered_message(uri.as_str(), "' as an existing file"),
                        ),
                    )
                } else {
                    None
                }
            },
            None => None,
        }
    }
}

impl Module for ModuleEnumerateFiles {
    open spec fn spec_name(&self) -> Seq<char> {
        "enumerate:files"@
    }

    open spec fn spec_description(&self) -> Seq<char> {
        "This module will aggressively try to find files based on the given wordlist and extension"@
    }

    open spec fn spec_subscribers(&self) -> Seq<Type> {
        seq![Type::DiscoveredDomain]
    }

    fn name(&self) -> (n: String) {
        String::from_str("enumerate:files")
    }

    fn description(&self) -> (d: String) {
        String::from_str(
            "This module will aggressively try to find files based on the given wordlist and extension",
        )
    }

    fn subscribers(&self) -> (s: Vec<Type>) {
        let s = vec![Type::DiscoveredDomain];
        assert(s@ =~= seq![Type::DiscoveredDomain]);
        s
    }
}

} // verus!

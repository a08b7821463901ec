//! Search results: the notices in which a bot of a channel lists a file, and
//! what is read from them.
//!
//! A listing names the file, then says how to ask for it:
//! `... <file> ... /msg <nick> xdcc send #<number> ...`. Colours and other
//! formatting are taken out of the notice before it is read.

use crate::download::ServerId;
use irc::proto::FormattedStringExt;
use regex::Regex;
use vstd::prelude::*;

verus! {

/// The pattern of a listing. Its three groups are the file's name, the nick
/// of the bot and the command that asks the bot for the file.
pub const SEARCH_PATTERN: &'static str =
    r"(?P<filename>[[:word:][:punct:]]+)\s+(?:.\s+)+(?i)/msg\s+(?P<nick>[^\s]+)\s+(?P<command>xdcc\s+send\s+#?\d+)";

/// A file that a search found: where, at whom, and how to ask for it.
#[derive(Clone, Debug, Default)]
pub struct SearchResult {
    pub server: ServerId,
    pub file_name: String,
    pub nick: String,
    pub command: String,
}

/// A search result as plain values.
pub struct SearchResultView {
    pub server: Seq<char>,
    pub file_name: Seq<char>,
    pub nick: Seq<char>,
    pub command: Seq<char>,
}

/// What a search has found so far.
#[derive(Clone, Debug, Default)]
pub struct Search {
    pub results: Vec<SearchResult>,
}

impl View for SearchResult {
    type V = SearchResultView;

    open spec fn view(&self) -> SearchResultView {
        SearchResultView {
            server: self.server@,
            file_name: self.file_name@,
            nick: self.nick@,
            command: self.command@,
        }
    }
}

impl View for Search {
    type V = Seq<SearchResultView>;

    open spec fn view(&self) -> Seq<SearchResultView> {
        Seq::new(self.results@.len(), |i: int| self.results@[i]@)
    }
}

/// The text without its IRC formatting: what `strip_formatting` of the `irc`
/// crate makes of it.
pub uninterp spec fn stripped(text: Seq<char>) -> Seq<char>;

/// The groups of the first match of a pattern in a text: the whole match,
/// then the groups in the order of their opening brackets, each with the text
/// that it matched if it took part. This is what `Regex::captures` of the
/// `regex` crate finds; none where nothing matches or the pattern is no
/// pattern.
pub uninterp spec fn captures_of(pattern: Seq<char>, text: Seq<char>) -> Option<
    Seq<Option<Seq<char>>>,
>;

/// The groups of a match as plain values.
pub open spec fn groups_view(groups: Seq<Option<String>>) -> Seq<Option<Seq<char>>> {
    Seq::new(
        groups.len(),
        |i: int|
            match groups[i] {
                Some(part) => Some(part@),
                None => None,
            },
    )
}

/// `strip_formatting` of `irc::proto::FormattedStringExt`: the text without
/// colour codes and the characters for bold, underline, reverse and normal.
#[verifier::external_body]
fn strip_formatting(text: &str) -> (plain: String)
    ensures
        plain@ == stripped(text@),
{
    text.strip_formatting().into_owned()
}

/// `Regex::new` and `Regex::captures`: the groups of the leftmost match of
/// `pattern` in `text`, the whole match first.
#[verifier::external_body]
fn regex_captures(pattern: &str, text: &str) -> (groups: Option<Vec<Option<String>>>)
    ensures
        match groups {
            Some(groups) => captures_of(pattern@, text@) == Some(groups_view(groups@)),
            None => captures_of(pattern@, text@) is None,
        },
{
    let regex = Regex::new(pattern).ok()?;
    let found = regex.captures(text)?;
    Some(found.iter().map(|group| group.map(|part| part.as_str().to_string())).collect())
}

/// The search result that the groups of a listing give: file, nick and
/// command are the three groups after the whole match, which all have to be
/// there.
pub open spec fn result_of(server: Seq<char>, groups: Seq<Option<Seq<char>>>) -> Option<
    SearchResultView,
> {
    if groups.len() >= 4 && groups[1] is Some && groups[2] is Some && groups[3] is Some {
        Some(
            SearchResultView {
                server,
                file_name: groups[1]->0,
                nick: groups[2]->0,
                command: groups[3]->0,
            },
        )
    } else {
        None
    }
}

/// The search result that a notice gives, if it is a listing.
pub open spec fn search_result_of(server: Seq<char>, notice: Seq<char>) -> Option<
    SearchResultView,
> {
    match captures_of(SEARCH_PATTERN@, stripped(notice)) {
        Some(groups) => result_of(server, groups),
        None => None,
    }
}

impl SearchResult {
    /// The search result that the groups of a listing give, for a listing
    /// seen on `server`.
    pub fn from_groups(server: &str, groups: &Vec<Option<String>>) -> (result: Option<SearchResult>)
        ensures
            match result {
                Some(result) => result_of(server@, groups_view(groups@)) == Some(result@),
                None => result_of(server@, groups_view(groups@)) is None,
            },
    {
        if groups.len() < 4 {
            return None;
        }
        match (&groups[1], &groups[2], &groups[3]) {
            (Some(file_name), Some(nick), Some(command)) => Some(
                SearchResult {
                    server: server.to_owned(),
                    file_name: file_name.clone(),
                    nick: nick.clone(),
                    command: command.clone(),
                },
            ),
            _ => None,
        }
    }

    /// Reads a notice seen on `server`: a search result, if the notice is a
    /// listing.
    pub fn from_notice(server: &str, notice: &str) -> (result: Option<SearchResult>)
        ensures
            match result {
                Some(result) => search_result_of(server@, notice@) == Some(result@),
                None => search_result_of(server@, notice@) is None,
            },
    {
        let plain = strip_formatting(notice);
        match regex_captures(SEARCH_PATTERN, plain.as_str()) {
            Some(groups) => SearchResult::from_groups(server, &groups),
            None => None,
        }
    }
}

impl Search {
    /// A search that has found nothing yet.
    pub fn new() -> (search: Search)
        ensures
            search@ == Seq::<SearchResultView>::empty(),
    {
        let search = Search { results: Vec::new() };
        assert(search@ =~= Seq::<SearchResultView>::empty());
        search
    }

    /// Forgets what was found.
    pub fn clear(&mut self)
        ensures
            final(self)@ == Seq::<SearchResultView>::empty(),
    {
        self.results.clear();
        assert(self@ =~= Seq::<SearchResultView>::empty());
    }

    /// Takes up one more result, after those found before.
    pub fn record(&mut self, result: SearchResult)
        ensures
            final(self)@ == old(self)@.push(result@),
    {
        self.results.push(result);
        assert(self@ =~= old(self)@.push(result@));
    }

    /// What was found, in the order in which it was found.
    pub fn results(&self) -> (found: &Vec<SearchResult>)
        ensures
            found == &self.results,
    {
        &self.results
    }
}

} // verus!

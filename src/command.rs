//! Splitting a line typed by the local user into a command and its
//! argument.
use vstd::prelude::*;

verus! {

/// The `cmd` and `arg` groups of `s` matched against
/// `^/(?P<cmd>[^\s\t\r\n]+)(?x)(?P<arg>[^\r\n]*)`, if it matches.
pub uninterp spec fn command_split(s: Seq<char>) -> Option<(Seq<char>, Seq<char>)>;

/// `s` without its leading and trailing white space.
pub uninterp spec fn trim_of(s: Seq<char>) -> Seq<char>;

/// Relies on regex's `Regex::new`, `Regex::captures` and `Captures::name`:
/// the command grammar is the pattern below, anchored at a leading `/`; a
/// match yields the text of its two named groups.
#[verifier::external_body]
pub(crate) fn split_command(line: &str) -> (r: Option<(String, String)>)
    ensures
        match r {
            Some((c, a)) => command_split(line@) == Some((c@, a@)),
            None => command_split(line@) is None,
        },
        r is Some ==> line@.len() > 0 && line@[0] == '/',
{
    let re = regex::Regex::new(r"^/(?P<cmd>[^\s\t\r\n]+)(?x)(?P<arg>[^\r\n]*)").ok()?;
    let caps = re.captures(line)?;
    let cmd = caps.name("cmd")?.as_str().to_string();
    let arg = caps.name("arg")?.as_str().to_string();
    Some((cmd, arg))
}

/// Relies on `str::trim`: the result depends on the characters alone.
#[verifier::external_body]
pub(crate) fn trim(s: &str) -> (r: String)
    ensures
        r@ == trim_of(s@),
{
    s.trim().to_string()
}

} // verus!

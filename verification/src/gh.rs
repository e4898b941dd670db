//! The commands by which pull requests are obtained from the `gh` tool.
//!
//! This module decides what is run and how the outcome of a run is read.
//! Running a command is left to the caller: each operation yields the
//! [`Invocation`] to run, and [`read_output`] turns what the run produced
//! into the text it stands for.

use crate::graph::names;
use crate::text::{decimal, decimal_text};
use vstd::prelude::*;
use vstd::string::*;
use vstd::utf8::{decode_utf8, valid_utf8};

verus! {

/// A command line: the program to run and its arguments.
#[derive(Debug)]
pub struct Invocation {
    pub program: String,
    pub args: Vec<String>,
}

/// The mathematical content of an [`Invocation`].
pub struct InvocationView {
    pub program: Seq<char>,
    pub args: Seq<Seq<char>>,
}

impl View for Invocation {
    type V = InvocationView;

    open spec fn view(&self) -> InvocationView {
        InvocationView { program: self.program@, args: names(self.args@) }
    }
}

/// The `gh` command-line tool.
pub struct GhCli {
    base_command: String,
    list_args: Vec<String>,
}

/// The mathematical content of a [`GhCli`].
pub struct GhCliView {
    pub base_command: Seq<char>,
    pub list_args: Seq<Seq<char>>,
}

impl View for GhCli {
    type V = GhCliView;

    closed spec fn view(&self) -> GhCliView {
        GhCliView { base_command: self.base_command@, list_args: names(self.list_args@) }
    }
}

/// The members that are asked of `gh` for every pull request.
pub open spec fn listed_members() -> Seq<char> {
    "id,number,title,url,state,isCrossRepository,baseRefName,headRefName,headRepositoryOwner"@
}

fn copy_strings(strings: &Vec<String>) -> (r: Vec<String>)
    ensures
        names(r@) == names(strings@),
{
    let mut r: Vec<String> = Vec::new();
    let mut i: usize = 0;
    assert(names(r@) =~= names(strings@).take(0));
    while i < strings.len()
        invariant
            i <= strings.len(),
            names(r@) == names(strings@).take(i as int),
        decreases strings.len() - i,
    {
        let ghost before = names(r@);
        let copy = strings[i].clone();
        r.push(copy);
        assert(names(r@) =~= before.push(strings[i as int]@));
        assert(names(strings@).take(i + 1) =~= names(strings@).take(i as int).push(
            strings[i as int]@,
        ));
        i += 1;
    }
    assert(names(strings@).take(i as int) =~= names(strings@));
    r
}

impl GhCli {
    /// The tool under its usual name, listing pull requests as JSON with the
    /// members that the decoder reads.
    pub fn new() -> (cli: GhCli)
        ensures
            cli@.base_command == "gh"@,
            cli@.list_args == seq!["pr"@, "list"@, "--json"@, listed_members()],
    {
        let mut list_args: Vec<String> = Vec::new();
        list_args.push(String::from_str("pr"));
        list_args.push(String::from_str("list"));
        list_args.push(String::from_str("--json"));
        list_args.push(
            String::from_str(
                "id,number,title,url,state,isCrossRepository,baseRefName,headRefName,headRepositoryOwner",
            ),
        );
        assert(names(list_args@) =~= seq!["pr"@, "list"@, "--json"@, listed_members()]);
        GhCli { base_command: String::from_str("gh"), list_args }
    }

    /// The command that tells whether the tool is installed: it asks for the
    /// tool's version.
    pub fn check_health(&self) -> (command: Invocation)
        ensures
            command@.program == self@.base_command,
            command@.args == seq!["--version"@],
    {
        let mut args: Vec<String> = Vec::new();
        args.push(String::from_str("--version"));
        assert(names(args@) =~= seq!["--version"@]);
        Invocation { program: self.base_command.clone(), args }
    }

    /// The command that opens a pull request in the browser.
    pub fn open_pr_on_web(&self, pr_number: u64) -> (command: Invocation)
        ensures
            command@.program == self@.base_command,
            command@.args == seq!["pr"@, "view"@, decimal(pr_number as nat), "--web"@],
    {
        let mut args: Vec<String> = Vec::new();
        args.push(String::from_str("pr"));
        args.push(String::from_str("view"));
        args.push(decimal_text(pr_number));
        args.push(String::from_str("--web"));
        assert(names(args@) =~= seq!["pr"@, "view"@, decimal(pr_number as nat), "--web"@]);
        Invocation { program: self.base_command.clone(), args }
    }

    /// The command that lists all pull requests.
    pub fn get_all_prs(&self) -> (command: Invocation)
        ensures
            command@.program == self@.base_command,
            command@.args == self@.list_args,
    {
        Invocation { program: self.base_command.clone(), args: copy_strings(&self.list_args) }
    }

    /// The command that lists the pull requests that match a search filter.
    pub fn get_filtered_prs(&self, filter: String) -> (command: Invocation)
        ensures
            command@.program == self@.base_command,
            command@.args == self@.list_args + seq!["--search"@, filter@],
    {
        let mut args = copy_strings(&self.list_args);
        let ghost listed = names(args@);
        args.push(String::from_str("--search"));
        args.push(filter);
        assert(names(args@) =~= listed + seq!["--search"@, filter@]);
        Invocation { program: self.base_command.clone(), args }
    }
}

/// The search filter for a choice of options: `author:@me` when only one's
/// own pull requests are wanted, then each custom filter, every part
/// followed by a blank.
pub open spec fn filter_text(me: bool, custom: Seq<Seq<char>>) -> Seq<char>
    decreases custom.len(),
{
    if custom.len() == 0 {
        if me {
            "author:@me "@
        } else {
            Seq::empty()
        }
    } else {
        filter_text(me, custom.drop_last()) + custom.last() + " "@
    }
}

/// Builds the search filter for a choice of options.
pub fn search_filter(me: bool, custom: &Vec<String>) -> (filter: String)
    ensures
        filter@ == filter_text(me, names(custom@)),
{
    let mut filter = String::new();
    if me {
        filter.append("author:@me ");
    }
    let ghost all = names(custom@);
    assert(all.take(0) =~= Seq::empty());
    assert(filter@ =~= filter_text(me, all.take(0)));
    let mut i: usize = 0;
    while i < custom.len()
        invariant
            i <= custom.len(),
            all == names(custom@),
            filter@ == filter_text(me, all.take(i as int)),
        decreases custom.len() - i,
    {
        filter.append(custom[i].as_str());
        filter.append(" ");
        proof {
            assert(all.take(i + 1).drop_last() =~= all.take(i as int));
            assert(all.take(i + 1).last() == custom[i as int]@);
        }
        i += 1;
    }
    assert(all.take(i as int) =~= all);
    filter
}

/// Why a run of the tool gave no text.
#[derive(Debug)]
pub enum CommandError {
    /// The tool ended unsuccessfully; this is what it wrote to its error
    /// stream, with invalid UTF-8 replaced.
    Failed(String),
    /// The tool ended successfully but its output is not UTF-8.
    NotText,
}

/// The text that `String::from_utf8_lossy` makes of bytes: their decoding,
/// with each invalid sequence replaced by the replacement character.
pub uninterp spec fn lossy_text(bytes: Seq<u8>) -> Seq<char>;

/// Decodes bytes with `String::from_utf8`.
///
/// Trusted: the result is the decoded text when the bytes are valid UTF-8,
/// and `None` when they are not.
#[verifier::external_body]
fn text_of(bytes: Vec<u8>) -> (r: Option<String>)
    ensures
        match r {
            Some(text) => valid_utf8(bytes@) && text@ == decode_utf8(bytes@),
            None => !valid_utf8(bytes@),
        },
{
    match String::from_utf8(bytes) {
        Ok(text) => Some(text),
        Err(_) => None,
    }
}

/// Decodes bytes with `String::from_utf8_lossy`.
///
/// Trusted: the result is the lossy decoding of the bytes.
#[verifier::external_body]
fn lossy_text_of(bytes: &Vec<u8>) -> (r: String)
    ensures
        r@ == lossy_text(bytes@),
{
    String::from_utf8_lossy(bytes).into_owned()
}

/// Reads the outcome of a run: the output as text when the tool succeeded,
/// and otherwise an error that carries what the tool wrote to its error
/// stream.
pub fn read_output(success: bool, stdout: Vec<u8>, stderr: &Vec<u8>) -> (r: Result<
    String,
    CommandError,
>)
    ensures
        match r {
            Ok(text) => success && valid_utf8(stdout@) && text@ == decode_utf8(stdout@),
            Err(CommandError::Failed(message)) => !success && message@ == lossy_text(stderr@),
            Err(CommandError::NotText) => success && !valid_utf8(stdout@),
        },
{
    if !success {
        return Err(CommandError::Failed(lossy_text_of(stderr)));
    }
    match text_of(stdout) {
        Some(text) => Ok(text),
        None => Err(CommandError::NotText),
    }
}

} // verus!

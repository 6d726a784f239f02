//! What the program is asked for on its command line.
use vstd::prelude::*;

use crate::text::same_text;

verus! {

/// A request of the user or of the shell.
pub enum Request {
    /// Put a command, with its exit code in front of it, into the index.
    Add(String),
    /// Let the user select a command.
    Search {
        /// Where the keys are read from.
        fd_path: String,
        /// The search text that the menu opens with.
        initial_input: String,
    },
    /// Put the commands of a history file into the index, of the default one if none is named.
    Import { path: Option<String> },
    /// Print the script that the shell sources.
    Init,
    /// The shell that was named is not supported.
    UnsupportedShell,
    /// Remove the index.
    DeleteIndex,
    /// Print how the program is used.
    Help,
}

/// An argument of the program, empty where there is none.
pub open spec fn argument(args: Seq<String>, place: int) -> Seq<char> {
    if place < args.len() {
        args[place]@
    } else {
        Seq::empty()
    }
}

/// The first argument, which names what is asked for, is this word.
pub open spec fn asks_for(args: Seq<String>, word: Seq<char>) -> bool {
    argument(args, 1) == word
}

/// The request that the arguments make. The first of them is the name of the program.
pub open spec fn is_request_of(request: Request, args: Seq<String>) -> bool {
    let zsh = argument(args, 2) == "zsh"@;
    match request {
        Request::Add(command) => asks_for(args, "add"@) && command@ == argument(args, 2),
        Request::Search { fd_path, initial_input } => asks_for(args, "search"@) && fd_path@
            == argument(args, 2) && initial_input@ == argument(args, 3),
        Request::Import { path } => asks_for(args, "import"@) && zsh && (path is Some
            <==> args.len() > 3) && (path is Some ==> path->0@ == args[3]@),
        Request::Init => asks_for(args, "init"@) && zsh,
        Request::UnsupportedShell => (asks_for(args, "import"@) || asks_for(args, "init"@)) && !zsh,
        Request::DeleteIndex => asks_for(args, "delete_index"@),
        Request::Help => !asks_for(args, "add"@) && !asks_for(args, "search"@) && !asks_for(
            args,
            "import"@,
        ) && !asks_for(args, "init"@) && !asks_for(args, "delete_index"@),
    }
}

/// An argument of the program, empty where there is none.
fn argument_or_empty(args: &[String], place: usize) -> (text: String)
    ensures
        text@ == argument(args@, place as int),
{
    if place < args.len() {
        args[place].clone()
    } else {
        String::new()
    }
}

/// Reads the arguments of the program.
pub fn parse_request(args: &[String]) -> (request: Request)
    ensures
        is_request_of(request, args@),
        args@.len() > 2 && args@[1]@ == "add"@ ==> request is Add && request->Add_0@ == args@[2]@,
        args@.len() > 3 && args@[1]@ == "search"@ ==> request is Search && request->fd_path@
            == args@[2]@ && request->initial_input@ == args@[3]@,
        args@.len() > 3 && args@[1]@ == "import"@ && args@[2]@ == "zsh"@ ==> request is Import
            && request->path is Some && request->path->0@ == args@[3]@,
{
    proof {
        lemma_words_differ();
    }
    let word = argument_or_empty(args, 1);
    let second = argument_or_empty(args, 2);
    if same_text(word.as_str(), "add") {
        Request::Add(second)
    } else if same_text(word.as_str(), "search") {
        Request::Search { fd_path: second, initial_input: argument_or_empty(args, 3) }
    } else if same_text(word.as_str(), "import") {
        if same_text(second.as_str(), "zsh") {
            let path = if args.len() > 3 {
                Some(args[3].clone())
            } else {
                None
            };
            Request::Import { path }
        } else {
            Request::UnsupportedShell
        }
    } else if same_text(word.as_str(), "delete_index") {
        Request::DeleteIndex
    } else if same_text(word.as_str(), "init") {
        if same_text(second.as_str(), "zsh") {
            Request::Init
        } else {
            Request::UnsupportedShell
        }
    } else {
        Request::Help
    }
}

/// Decides whether an import is refused because there is nothing at its path.
pub fn import_refused(exists: bool) -> (refused: bool)
    ensures
        refused == !exists,
{
    !exists
}

/// The words that name requests differ, and none is empty.
proof fn lemma_words_differ()
    ensures
        "add"@.len() == 3,
        "search"@.len() == 6 && "search"@[0] == 's',
        "import"@.len() == 6 && "import"@[0] == 'i',
        "init"@.len() == 4,
        "delete_index"@.len() == 12,
        "zsh"@.len() == 3,
{
    reveal_strlit("add");
    reveal_strlit("search");
    reveal_strlit("import");
    reveal_strlit("init");
    reveal_strlit("delete_index");
    reveal_strlit("zsh");
}

/// A request holds the arguments as they are, all of them: the command that is added, the path
/// and the text of a search, and the path of an import.
pub proof fn law_request_holds_its_arguments(request: Request, args: Seq<String>)
    requires
        is_request_of(request, args),
        args.len() > 1,
    ensures
        args[1]@ == "add"@ ==> request is Add && request->Add_0@ == (if args.len() > 2 {
            args[2]@
        } else {
            Seq::empty()
        }),
        args[1]@ == "search"@ ==> {
            &&& request is Search
            &&& request->fd_path@ == (if args.len() > 2 {
                args[2]@
            } else {
                Seq::empty()
            })
            &&& request->initial_input@ == (if args.len() > 3 {
                args[3]@
            } else {
                Seq::empty()
            })
        },
        args[1]@ == "import"@ && args.len() > 2 && args[2]@ == "zsh"@ ==> {
            &&& request is Import
            &&& args.len() > 3 ==> request->path is Some && request->path->0@ == args[3]@
            &&& args.len() <= 3 ==> request->path is None
        },
{
    lemma_words_differ();
}

/// Only the words that name a request make one, and only Zsh is a shell that is known; anything
/// else asks for help.
pub proof fn law_other_words_ask_for_help(request: Request, args: Seq<String>)
    requires
        is_request_of(request, args),
    ensures
        args.len() <= 1 ==> request is Help,
        args.len() > 1 && args[1]@ == "delete_index"@ ==> request is DeleteIndex,
        args.len() > 2 && args[1]@ == "init"@ && args[2]@ == "zsh"@ ==> request is Init,
        args.len() > 1 && (args[1]@ == "import"@ || args[1]@ == "init"@) && (args.len() == 2
            || args[2]@ != "zsh"@) ==> request is UnsupportedShell,
        args.len() > 1 && args[1]@ != "add"@ && args[1]@ != "search"@ && args[1]@ != "import"@
            && args[1]@ != "init"@ && args[1]@ != "delete_index"@ ==> request is Help,
{
    lemma_words_differ();
}

} // verus!

//! The client side of procedural macros. They are expanded by another
//! process: the client says what is to be sent to that process and makes
//! an expansion or an error of what came back. The sending is left to the
//! caller.

use crate::macro_call::ProcMacroKind;
use crate::tree_sink::ExpandError;
use crate::tt::Subtree;
use vstd::prelude::*;
use vstd::std_specs::cmp::PartialEqSpecImpl;

verus! {

/// An error of input and output, as the standard library reports it.
/// Nothing is said of what is inside.
#[verifier::external_type_specification]
#[verifier::external_body]
pub struct ExIoError(std::io::Error);

/// Names a running process that expands procedural macros.
#[derive(Clone, Copy, Debug, PartialEq, Eq, Hash, Structural)]
pub struct ProcMacroProcessSrv {
    pub id: u64,
}

/// A procedural macro that a process expands: the process, the library
/// that defines the macro, and the name of the macro.
#[derive(Debug)]
pub struct ProcMacroProcessExpander {
    pub process: ProcMacroProcessSrv,
    pub dylib_path: String,
    pub name: String,
}

/// What a [`ProcMacroProcessExpander`] is.
pub struct ProcMacroProcessExpanderView {
    pub process: ProcMacroProcessSrv,
    pub dylib_path: Seq<char>,
    pub name: Seq<char>,
}

impl View for ProcMacroProcessExpander {
    type V = ProcMacroProcessExpanderView;

    open spec fn view(&self) -> ProcMacroProcessExpanderView {
        ProcMacroProcessExpanderView {
            process: self.process,
            dylib_path: self.dylib_path@,
            name: self.name@,
        }
    }
}

impl PartialEq for ProcMacroProcessExpander {
    fn eq(&self, other: &Self) -> (r: bool) {
        self.name == other.name && self.dylib_path == other.dylib_path && self.process
            == other.process
    }
}

impl PartialEqSpecImpl for ProcMacroProcessExpander {
    open spec fn obeys_eq_spec() -> bool {
        true
    }

    open spec fn eq_spec(&self, other: &Self) -> bool {
        self.name@ == other.name@ && self.dylib_path@ == other.dylib_path@ && self.process
            == other.process
    }
}

/// What is sent to the process: the macro to expand, its input, the
/// arguments of the attribute where it is an attribute macro, and the
/// library to find the macro in.
#[derive(Debug)]
pub struct ExpansionTask {
    pub macro_body: Subtree,
    pub macro_name: String,
    pub attributes: Option<Subtree>,
    pub lib: String,
}

/// What comes back from the process: the expansion, or what went wrong.
#[derive(Debug)]
pub enum ExpansionResult {
    Expansion(Subtree),
    Error(String),
}

impl ProcMacroProcessExpander {
    /// What is to be sent to the process for the input `subtree`. The
    /// arguments of an attribute are not sent.
    pub fn task(&self, subtree: &Subtree, attr: Option<&Subtree>) -> (r: ExpansionTask)
        ensures
            r.macro_body@ == subtree@,
            r.macro_name@ == self.name@,
            r.attributes.is_none(),
            r.lib@ == self.dylib_path@,
    {
        ExpansionTask {
            macro_body: subtree.duplicate(),
            macro_name: self.name.clone(),
            attributes: None,
            lib: self.dylib_path.clone(),
        }
    }

    /// What came of the expansion: the token tree that the process sent,
    /// or the error that it reported.
    pub fn expand(result: ExpansionResult) -> (r: Result<Subtree, ExpandError>)
        ensures
            match result {
                ExpansionResult::Expansion(tree) => r == Ok::<Subtree, ExpandError>(tree),
                ExpansionResult::Error(message) => r == Err::<Subtree, ExpandError>(
                    ExpandError::Other(message),
                ),
            },
    {
        match result {
            ExpansionResult::Expansion(tree) => Ok(tree),
            ExpansionResult::Error(message) => Err(ExpandError::Other(message)),
        }
    }
}

#[derive(Clone, Copy, Debug, PartialEq, Eq, Hash, Structural)]
pub enum ProcMacroClientKind {
    Process { process: ProcMacroProcessSrv },
    Dummy,
}

/// The way to the procedural macros: through a process, or none at all.
#[derive(Clone, Copy, Debug, PartialEq, Eq, Hash, Structural)]
pub struct ProcMacroClient {
    pub kind: ProcMacroClientKind,
}

/// The macros among the first `n` of `found` that the client offers: the
/// derive macros, each with its name.
pub open spec fn offered(
    process: ProcMacroProcessSrv,
    dylib_path: Seq<char>,
    found: Seq<(Seq<char>, ProcMacroKind)>,
    n: int,
) -> Seq<(Seq<char>, ProcMacroProcessExpanderView)>
    decreases n,
{
    if n <= 0 || n > found.len() {
        Seq::empty()
    } else {
        let before = offered(process, dylib_path, found, n - 1);
        if found[n - 1].1 == ProcMacroKind::CustomDerive {
            before.push(
                (
                    found[n - 1].0,
                    ProcMacroProcessExpanderView { process, dylib_path, name: found[n - 1].0 },
                ),
            )
        } else {
            before
        }
    }
}

/// What a list of macros that a library defines is.
pub open spec fn found_views(found: Seq<(String, ProcMacroKind)>) -> Seq<
    (Seq<char>, ProcMacroKind),
> {
    Seq::new(found.len(), |i: int| (found[i].0@, found[i].1))
}

/// What a list of offered macros is.
pub open spec fn offered_views(list: Seq<(String, ProcMacroProcessExpander)>) -> Seq<
    (Seq<char>, ProcMacroProcessExpanderView),
> {
    Seq::new(list.len(), |i: int| (list[i].0@, list[i].1@))
}

impl ProcMacroClient {
    /// The client for the process that was started, or the error that
    /// kept it from starting.
    pub fn extern_process(started: Result<ProcMacroProcessSrv, std::io::Error>) -> (r: Result<
        ProcMacroClient,
        std::io::Error,
    >)
        ensures
            match started {
                Ok(process) => r == Ok::<ProcMacroClient, std::io::Error>(
                    ProcMacroClient { kind: ProcMacroClientKind::Process { process } },
                ),
                Err(e) => r == Err::<ProcMacroClient, std::io::Error>(e),
            },
    {
        match started {
            Ok(process) => Ok(ProcMacroClient { kind: ProcMacroClientKind::Process { process } }),
            Err(e) => Err(e),
        }
    }

    /// A client without a process, which offers no macros.
    pub fn dummy() -> (r: ProcMacroClient)
        ensures
            r == (ProcMacroClient { kind: ProcMacroClientKind::Dummy }),
    {
        ProcMacroClient { kind: ProcMacroClientKind::Dummy }
    }

    /// The macros of the library `dylib_path` that the client offers, where
    /// `found` is what the process found in the library, or its error:
    /// the derive macros, in the order in which they were found. A client
    /// without a process offers none, and none are offered after an error.
    pub fn by_dylib_path(
        &self,
        dylib_path: &str,
        found: Result<Vec<(String, ProcMacroKind)>, String>,
    ) -> (r: Vec<(String, ProcMacroProcessExpander)>)
        ensures
            offered_views(r@) == match (self.kind, found) {
                (ProcMacroClientKind::Process { process }, Ok(macros)) => offered(
                    process,
                    dylib_path@,
                    found_views(macros@),
                    macros@.len() as int,
                ),
                _ => Seq::empty(),
            },
    {
        let mut out: Vec<(String, ProcMacroProcessExpander)> = Vec::new();
        proof {
            assert(offered_views(out@) =~= Seq::empty());
        }
        let process = match self.kind {
            ProcMacroClientKind::Dummy => {
                return out;
            },
            ProcMacroClientKind::Process { process } => process,
        };
        let macros = match found {
            Err(_) => {
                return out;
            },
            Ok(macros) => macros,
        };
        let ghost views = found_views(macros@);
        let mut i: usize = 0;
        while i < macros.len()
            invariant
                i <= macros@.len(),
                views == found_views(macros@),
                offered_views(out@) == offered(process, dylib_path@, views, i as int),
            decreases macros@.len() - i,
        {
            proof {
                assert(views[i as int] == (macros@[i as int].0@, macros@[i as int].1));
            }
            match macros[i].1 {
                ProcMacroKind::CustomDerive => {
                    let name = macros[i].0.clone();
                    let expander = ProcMacroProcessExpander {
                        process,
                        name: name.clone(),
                        dylib_path: dylib_path.to_owned(),
                    };
                    let ghost prev = out@;
                    out.push((name, expander));
                    proof {
                        assert(offered_views(out@) =~= offered_views(prev).push(
                            (out@[out@.len() - 1].0@, out@[out@.len() - 1].1@),
                        ));
                    }
                },
                _ => {},
            }
            i += 1;
        }
        out
    }
}

} // verus!

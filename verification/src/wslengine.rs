//! The Linux engine inside WSL: what a check of it found, and what that allows.
use crate::text;
use vstd::prelude::*;

verus! {

/// What is wrong with the engine inside WSL.
#[derive(Debug, Clone, Copy, PartialEq, Eq, Structural)]
pub enum Fault {
    /// The distribution is not there.
    NoDistro,
    /// The distribution has no engine.
    NoEngine,
    /// Anything else, told by the fault's own words, and whether the check says
    /// that installing an engine would mend it.
    Other { installable: bool },
}

impl Fault {
    pub open spec fn spec_installable(self) -> bool {
        match self {
            Fault::NoDistro => false,
            Fault::NoEngine => true,
            Fault::Other { installable } => installable,
        }
    }

    /// Whether installing an engine would mend it: a distribution without one,
    /// and nothing where there is no distribution.
    pub fn installable(self) -> (r: bool)
        ensures
            r == self.spec_installable(),
    {
        match self {
            Fault::NoDistro => false,
            Fault::NoEngine => true,
            Fault::Other { installable } => installable,
        }
    }
}

/// A fault, with what is wrong and how to mend it.
#[derive(Debug, PartialEq, Eq)]
pub struct EngineFault {
    pub fault: Fault,
    pub what: String,
    pub fix: String,
    /// Both as one text, in the words of whoever checked.
    pub sentence: String,
}

impl Clone for EngineFault {
    fn clone(&self) -> (r: EngineFault)
        ensures
            r == *self,
    {
        EngineFault {
            fault: self.fault,
            what: self.what.clone(),
            fix: self.fix.clone(),
            sentence: self.sentence.clone(),
        }
    }
}

/// An engine that answered.
#[derive(Debug, PartialEq, Eq)]
pub struct EngineFound {
    pub distro: String,
    pub command: String,
    pub path: Option<String>,
    pub version: Option<String>,
    /// All of it as one line, in the words of whoever checked.
    pub summary: String,
}

impl Clone for EngineFound {
    fn clone(&self) -> (r: EngineFound)
        ensures
            r == *self,
    {
        EngineFound {
            distro: self.distro.clone(),
            command: self.command.clone(),
            path: text::clone_opt(&self.path),
            version: text::clone_opt(&self.version),
            summary: self.summary.clone(),
        }
    }
}

/// The answer of the check for the WSL backend.
#[derive(Debug, PartialEq, Eq)]
pub enum Status {
    /// Nothing asked yet.
    Unknown,
    Checking,
    Ready(EngineFound),
    Failed(EngineFault),
}

impl Default for Status {
    fn default() -> (r: Status)
        ensures
            r is Unknown,
    {
        Status::Unknown
    }
}

impl Clone for Status {
    fn clone(&self) -> (r: Status)
        ensures
            r == *self,
    {
        match self {
            Status::Unknown => Status::Unknown,
            Status::Checking => Status::Checking,
            Status::Ready(found) => Status::Ready(found.clone()),
            Status::Failed(fault) => Status::Failed(fault.clone()),
        }
    }
}

impl Status {
    /// True only when a machine may be started on this backend: an unfinished
    /// check is not a yes.
    pub fn usable(&self) -> (r: bool)
        ensures
            r == (self is Ready),
    {
        match self {
            Status::Ready(_) => true,
            _ => false,
        }
    }

    /// The one line that is shown, once there is something to show.
    pub fn line(&self) -> (r: Option<String>)
        ensures
            text::opt_text(r) == match *self {
                Status::Unknown => None,
                Status::Checking => Some("checking the WSL engine…"@),
                Status::Ready(found) => Some(found.summary@),
                Status::Failed(fault) => Some(fault.what@),
            },
    {
        match self {
            Status::Unknown => None,
            Status::Checking => Some("checking the WSL engine…".to_owned()),
            Status::Ready(found) => Some(found.summary.clone()),
            Status::Failed(fault) => Some(fault.what.clone()),
        }
    }

    /// Whether installing the engine makes sense right now.
    pub fn installable(&self) -> (r: bool)
        ensures
            r == (self matches Status::Failed(fault) && fault.fault.spec_installable()),
    {
        match self {
            Status::Failed(fault) => fault.fault.installable(),
            _ => false,
        }
    }

    pub open spec fn spec_refusal(self) -> Option<Seq<char>> {
        match self {
            Status::Failed(fault) => Some(fault.sentence@),
            _ => None,
        }
    }

    /// The refusal a launch shows, complete with its fix.
    pub fn refusal(&self) -> (r: Option<String>)
        ensures
            text::opt_text(r) == self.spec_refusal(),
    {
        match self {
            Status::Failed(fault) => Some(fault.sentence.clone()),
            _ => None,
        }
    }
}

/// What a check is about: it is only repeated when one of these changes.
#[derive(Debug, PartialEq, Eq)]
pub struct Target {
    pub distro: String,
    pub engine: Option<String>,
}

impl Clone for Target {
    fn clone(&self) -> (r: Target)
        ensures
            r == *self,
    {
        Target { distro: self.distro.clone(), engine: text::clone_opt(&self.engine) }
    }
}

/// A target as plain values.
pub ghost struct TargetView {
    pub distro: Seq<char>,
    pub engine: Option<Seq<char>>,
}

impl View for Target {
    type V = TargetView;

    open spec fn view(&self) -> TargetView {
        TargetView { distro: self.distro@, engine: text::opt_text(self.engine) }
    }
}

/// The target for a distribution and an engine path: white space around either
/// does not matter, and a blank path is none.
pub open spec fn target_of(distro: Seq<char>, engine: Option<Seq<char>>) -> TargetView {
    TargetView {
        distro: text::trim_of(distro),
        engine: match engine {
            Some(e) => if text::trim_of(e).len() > 0 {
                Some(text::trim_of(e))
            } else {
                None
            },
            None => None,
        },
    }
}

impl Target {
    pub fn new(distro: &str, engine: Option<&str>) -> (r: Target)
        ensures
            r@ == target_of(
                distro@,
                match engine {
                    Some(e) => Some(e@),
                    None => None,
                },
            ),
    {
        let path = match engine {
            Some(e) => {
                let t = text::trim(e);
                if t.as_str().is_empty() {
                    None
                } else {
                    Some(t)
                }
            },
            None => None,
        };
        Target { distro: text::trim(distro), engine: path }
    }

    /// Whether two checks are about the same.
    pub fn same(&self, other: &Target) -> (r: bool)
        ensures
            r == (self@ == other@),
    {
        let engine = match (&self.engine, &other.engine) {
            (Some(a), Some(b)) => text::same(a, b),
            (None, None) => true,
            _ => false,
        };
        engine && text::same(&self.distro, &other.distro)
    }
}

/// The target of trimmed values is the target of the values.
pub proof fn targets_ignore_white_space(distro: Seq<char>, engine: Option<Seq<char>>)
    ensures
        target_of(text::trim_of(distro), engine) == target_of(distro, engine),
        engine matches Some(e) ==> target_of(distro, Some(text::trim_of(e))) == target_of(
            distro,
            engine,
        ),
        engine matches Some(e) && text::trim_of(e).len() == 0 ==> target_of(distro, engine)
            == target_of(distro, None),
{
    text::trim_is_idempotent(distro);
    if let Some(e) = engine {
        text::trim_is_idempotent(e);
    }
}

/// What installing the engine into a distribution came to.
#[derive(Debug, PartialEq, Eq)]
pub struct Installed {
    /// Where the engine now is, inside the distribution.
    pub path: String,
    pub summary: String,
    /// The download was already on disk.
    pub cached: bool,
    /// The copy inside the distribution was checked again.
    pub rechecked: bool,
}

pub const FROM_CACHE: &'static str = " (from the verified download already on disk)";
pub const NOT_RECHECKED: &'static str =
    " — the distribution has no sha256sum, so the copy inside it \
     could not be re-checked; the download itself was verified";

impl Installed {
    pub open spec fn spec_message(self) -> Seq<char> {
        self.summary@ + (if self.cached {
            FROM_CACHE@
        } else {
            Seq::empty()
        }) + (if self.rechecked {
            Seq::empty()
        } else {
            NOT_RECHECKED@
        })
    }

    /// The sentence shown to the user.
    pub fn message(&self) -> (r: String)
        ensures
            r@ == self.spec_message(),
    {
        let mut message = self.summary.clone();
        if self.cached {
            message.append(FROM_CACHE);
        }
        if !self.rechecked {
            message.append(NOT_RECHECKED);
        }
        assert(message@ =~= self.spec_message());
        message
    }
}

pub const MOCK_WHAT: &'static str = "Ubuntu has no Entangled engine ('entangled' is not there)";
pub const MOCK_FIX: &'static str =
    "The Windows installer ships no Linux build: let the manager install one \
     (Settings ▸ Linux engine), or point that setting at your own build.";

/// The sample answer: a distribution without an engine.
pub open spec fn is_mock_status(status: Status, sentence: Seq<char>) -> bool {
    status matches Status::Failed(fault) && fault.fault == Fault::NoEngine && fault.what@
        == MOCK_WHAT@ && fault.fix@ == MOCK_FIX@ && fault.sentence@ == sentence
}

/// What a session without a host shows: a distribution with no engine. `sentence`
/// is what is wrong with it and how to mend it, as one text.
pub fn mock_status(sentence: &str) -> (r: Status)
    ensures
        is_mock_status(r, sentence@),
{
    Status::Failed(
        EngineFault {
            fault: Fault::NoEngine,
            what: MOCK_WHAT.to_owned(),
            fix: MOCK_FIX.to_owned(),
            sentence: sentence.to_owned(),
        },
    )
}

} // verus!

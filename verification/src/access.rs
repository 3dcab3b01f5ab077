//! Sessions of hardware accesses.
//!
//! An operation on the hardware alternates accesses and decisions. It is
//! written as a function of its arguments and of the replies to the accesses
//! made so far: it returns the next access to make, or the outcome. Whoever
//! performs the accesses calls it with no replies first, appends each reply to
//! the list, and stops at the outcome.

use crate::text::{decimal_of, join, parse_number, trim};
use vstd::prelude::*;

verus! {

/// One request to the driver's control device.
#[derive(Clone, Copy, PartialEq, Eq, Structural, Debug)]
pub enum Ioctl {
    /// Read a 32-bit value.
    Read(u64),
    /// Write a 32-bit value.
    Write(u64, i32),
    /// Write a 64-bit value.
    WriteWide(u64, u64),
    /// Send a request with an immediate argument.
    Command(u64, i32),
}

/// One request to a graphics card.
#[derive(Clone, Copy, PartialEq, Eq, Structural, Debug)]
pub enum GpuRequest {
    /// Keep the core clock between two frequencies in MHz.
    LockClocks(u32, u32),
    /// Let the core clock go.
    ResetClocks,
    /// Shift the core clock by so many MHz.
    CoreOffset(i32),
    /// Shift the memory clock by so many MHz.
    MemoryOffset(i32),
    /// Limit the power, in milliwatts.
    PowerLimit(u32),
    /// Run a fan at a percentage of its speed.
    FanSpeed(u32, u32),
    /// Hand a fan back to the card.
    FanAuto(u32),
}

/// One access to the hardware.
#[derive(Debug)]
pub enum Action {
    /// Does the path exist?
    Probe(String),
    /// Read the file.
    Read(String),
    /// Write the text to the file.
    Write(String, String),
    /// List the names in the directory.
    List(String),
    /// Send a request to the control device.
    Control(Ioctl),
    /// Run the program with the arguments.
    Run(String, Vec<String>),
    /// Read the frequency limits of the hardware itself.
    ReadHwLimits,
    /// Read all hardware values anew.
    RefreshCache,
    /// Send a request to the graphics card of this index.
    Gpu(u32, GpuRequest),
}

/// The reply to an access.
#[derive(Debug)]
pub enum Reply {
    /// Whether a probed path exists.
    Present(bool),
    /// The text of a file.
    Text(String),
    /// The names in a directory.
    Names(Vec<String>),
    /// The value of a request.
    Value(i32),
    /// The lower and the upper limit, as far as they are known.
    Limits(Option<u64>, Option<u64>),
    /// Whether a program succeeded, and its error output.
    Exit(bool, String),
    /// The access succeeded and has no value.
    Done,
    /// The access failed, with this message.
    Failed(String),
}

/// What an `Action` says.
pub enum Act {
    Probe(Seq<char>),
    Read(Seq<char>),
    Write(Seq<char>, Seq<char>),
    List(Seq<char>),
    Control(Ioctl),
    Run(Seq<char>, Seq<Seq<char>>),
    ReadHwLimits,
    RefreshCache,
    Gpu(u32, GpuRequest),
}

impl View for Action {
    type V = Act;

    open spec fn view(&self) -> Act {
        match self {
            Action::Probe(path) => Act::Probe(path@),
            Action::Read(path) => Act::Read(path@),
            Action::Write(path, value) => Act::Write(path@, value@),
            Action::List(path) => Act::List(path@),
            Action::Control(request) => Act::Control(*request),
            Action::Run(program, args) => Act::Run(program@, crate::text::views(args@)),
            Action::ReadHwLimits => Act::ReadHwLimits,
            Action::RefreshCache => Act::RefreshCache,
            Action::Gpu(index, request) => Act::Gpu(*index, *request),
        }
    }
}

/// Copies a list of texts.
pub fn copy_texts(list: &Vec<String>) -> (r: Vec<String>)
    ensures
        crate::text::views(r@) == crate::text::views(list@),
{
    let mut out: Vec<String> = Vec::new();
    let mut i: usize = 0;
    while i < list.len()
        invariant
            i <= list@.len(),
            out@.len() == i,
            forall|j: int| 0 <= j < i ==> (#[trigger] out@[j])@ == list@[j]@,
        decreases list@.len() - i,
    {
        out.push(list[i].clone());
        i = i + 1;
    }
    assert(crate::text::views(out@) =~= crate::text::views(list@));
    out
}

impl Clone for Action {
    fn clone(&self) -> (r: Action)
        ensures
            r@ == self@,
    {
        match self {
            Action::Probe(path) => Action::Probe(path.clone()),
            Action::Read(path) => Action::Read(path.clone()),
            Action::Write(path, value) => Action::Write(path.clone(), value.clone()),
            Action::List(path) => Action::List(path.clone()),
            Action::Control(request) => Action::Control(*request),
            Action::Run(program, args) => Action::Run(program.clone(), copy_texts(args)),
            Action::ReadHwLimits => Action::ReadHwLimits,
            Action::RefreshCache => Action::RefreshCache,
            Action::Gpu(index, request) => Action::Gpu(*index, *request),
        }
    }
}

/// The next access of an operation, or its outcome.
#[derive(Debug)]
pub enum Step<T> {
    Do(Action),
    Done(Result<T, String>),
}

/// What a `Step` says.
pub enum Move<T> {
    Do(Act),
    Done(Result<T, Seq<char>>),
}

impl<T: DeepView> View for Step<T> {
    type V = Move<T::V>;

    open spec fn view(&self) -> Move<T::V> {
        match self {
            Step::Do(action) => Move::Do(action@),
            Step::Done(Ok(value)) => Move::Done(Ok(value.deep_view())),
            Step::Done(Err(message)) => Move::Done(Err(message@)),
        }
    }
}

impl Reply {
    /// Whether the probed path exists.
    pub open spec fn says_present(self) -> bool {
        self == Reply::Present(true)
    }

    /// The message if the access failed.
    pub open spec fn fault(self) -> Option<Seq<char>> {
        match self {
            Reply::Failed(message) => Some(message@),
            _ => None,
        }
    }

    /// The text of the file, or why there is none.
    pub open spec fn as_text(self) -> Result<Seq<char>, Seq<char>> {
        match self {
            Reply::Text(text) => Ok(text@),
            Reply::Failed(message) => Err(message@),
            _ => Err("no text in reply"@),
        }
    }

    /// The value of the request, or why there is none.
    pub open spec fn as_value(self) -> Result<i32, Seq<char>> {
        match self {
            Reply::Value(value) => Ok(value),
            Reply::Failed(message) => Err(message@),
            _ => Err("no value in reply"@),
        }
    }

    pub fn present(&self) -> (r: bool)
        ensures
            r == self.says_present(),
    {
        match self {
            Reply::Present(b) => *b,
            _ => false,
        }
    }

    pub fn failure(&self) -> (r: Option<String>)
        ensures
            self.fault() is Some <==> r is Some,
            r matches Some(m) ==> self.fault() == Some(m@),
    {
        match self {
            Reply::Failed(message) => Some(message.clone()),
            _ => None,
        }
    }

    pub fn text(&self) -> (r: Result<String, String>)
        ensures
            match r {
                Ok(t) => self.as_text() == Ok::<Seq<char>, Seq<char>>(t@),
                Err(e) => self.as_text() == Err::<Seq<char>, Seq<char>>(e@),
            },
    {
        match self {
            Reply::Text(text) => Ok(text.clone()),
            Reply::Failed(message) => Err(message.clone()),
            _ => Err("no text in reply".to_string()),
        }
    }

    pub fn value(&self) -> (r: Result<i32, String>)
        ensures
            match r {
                Ok(v) => self.as_value() == Ok::<i32, Seq<char>>(v),
                Err(e) => self.as_value() == Err::<i32, Seq<char>>(e@),
            },
    {
        match self {
            Reply::Value(value) => Ok(*value),
            Reply::Failed(message) => Err(message.clone()),
            _ => Err("no value in reply".to_string()),
        }
    }
}

/// The number up to `u32::MAX` in the text of a file, or `default` where there
/// is none.
pub open spec fn small_number_or(reply: Reply, default: nat) -> nat {
    match reply.as_text() {
        Ok(text) => match crate::text::number(crate::text::trimmed(text), u32::MAX as nat) {
            Ok(n) => n,
            Err(_) => default,
        },
        Err(_) => default,
    }
}

pub fn read_small_number(reply: &Reply, default: u32) -> (r: u32)
    ensures
        r == small_number_or(*reply, default as nat),
{
    match reply.text() {
        Ok(text) => match parse_number(trim(text.as_str()).as_str(), u32::MAX as u64) {
            Ok(n) => n as u32,
            Err(_) => default,
        },
        Err(_) => default,
    }
}

/// `percent` of a maximum, rounded down.
pub open spec fn scaled(percent: nat, max: nat) -> nat {
    percent * max / 100
}

pub fn scale(percent: u8, max: u32) -> (r: u64)
    ensures
        r == scaled(percent as nat, max as nat),
{
    assert(percent as nat * max as nat <= 0xff * 0xffff_ffff) by (nonlinear_arith)
        requires
            percent <= 0xff,
            max <= 0xffff_ffff,
    ;
    (percent as u64 * max as u64) / 100
}

/// One entry of a plan.
#[derive(Debug)]
pub enum PlanEntry {
    /// Make an access.
    Access {
        /// The access is made only where this path exists.
        guard: Option<String>,
        /// The message with which the plan fails where it does not; without one
        /// the entry is passed over.
        absent: Option<String>,
        /// The access.
        action: Action,
        /// What is tried if the access fails, whatever comes of it.
        fallback: Option<Action>,
        /// What stands before the reason in the message with which the plan
        /// fails if the access fails; without it the failure is ignored.
        failure: Option<String>,
    },
    /// Write a percentage of the `max_brightness` of a light to its
    /// `brightness`, whatever comes of it. The maximum is 255 where it cannot
    /// be read.
    Brightness { light: String, percent: u8 },
}

/// What a `PlanEntry` says.
pub enum Entry {
    Access {
        guard: Option<Seq<char>>,
        absent: Option<Seq<char>>,
        action: Act,
        fallback: Option<Act>,
        failure: Option<Seq<char>>,
    },
    Brightness { light: Seq<char>, percent: u8 },
}

/// The contents of an optional text.
pub open spec fn opt_text(t: Option<String>) -> Option<Seq<char>> {
    match t {
        Some(s) => Some(s@),
        None => None,
    }
}

/// What an optional action says.
pub open spec fn opt_act(a: Option<Action>) -> Option<Act> {
    match a {
        Some(a) => Some(a@),
        None => None,
    }
}

impl View for PlanEntry {
    type V = Entry;

    open spec fn view(&self) -> Entry {
        match self {
            PlanEntry::Access { guard, absent, action, fallback, failure } => Entry::Access {
                guard: opt_text(*guard),
                absent: opt_text(*absent),
                action: action@,
                fallback: opt_act(*fallback),
                failure: opt_text(*failure),
            },
            PlanEntry::Brightness { light, percent } => Entry::Brightness {
                light: light@,
                percent: *percent,
            },
        }
    }
}

/// What the entries of a plan say.
pub open spec fn entries(plan: Seq<PlanEntry>) -> Seq<Entry> {
    plan.map_values(|e: PlanEntry| e@)
}

/// An access whose failure is ignored.
pub open spec fn attempt(action: Act) -> Entry {
    Entry::Access { guard: None, absent: None, action, fallback: None, failure: None }
}

/// An access whose failure ends the plan.
pub open spec fn demand(action: Act, failure: Seq<char>) -> Entry {
    Entry::Access { guard: None, absent: None, action, fallback: None, failure: Some(failure) }
}

/// How far an entry has come.
pub enum Progress {
    /// The access is due.
    Due(Act),
    /// The entry is through, after so many replies.
    Through(int),
    /// The plan fails.
    Broken(Seq<char>),
}

/// How far an entry has come after the replies at the front of the list.
pub open spec fn progress(entry: Entry, replies: Seq<Reply>) -> Progress {
    match entry {
        Entry::Access { guard, absent, action, fallback, failure } => {
            let used = if guard is Some {
                1int
            } else {
                0int
            };
            if guard is Some && replies.len() == 0 {
                Progress::Due(Act::Probe(guard->0))
            } else if guard is Some && !replies[0].says_present() {
                match absent {
                    Some(message) => Progress::Broken(message),
                    None => Progress::Through(1),
                }
            } else if replies.len() == used {
                Progress::Due(action)
            } else {
                match replies[used].fault() {
                    None => Progress::Through(used + 1),
                    Some(reason) => match (fallback, failure) {
                        (Some(other), _) => if replies.len() == used + 1 {
                            Progress::Due(other)
                        } else {
                            Progress::Through(used + 2)
                        },
                        (None, Some(prefix)) => Progress::Broken(prefix + reason),
                        (None, None) => Progress::Through(used + 1),
                    },
                }
            }
        },
        Entry::Brightness { light, percent } => if replies.len() == 0 {
            Progress::Due(Act::Read(light + "/max_brightness"@))
        } else if replies.len() == 1 {
            Progress::Due(
                Act::Write(
                    light + "/brightness"@,
                    crate::text::decimal(
                        scaled(percent as nat, small_number_or(replies[0], 255)),
                    ),
                ),
            )
        } else {
            Progress::Through(2)
        },
    }
}

/// The next move of a plan: its entries in order, up to the one that fails it.
pub open spec fn plan_move(plan: Seq<Entry>, replies: Seq<Reply>) -> Move<()>
    decreases plan.len(),
{
    if plan.len() == 0 {
        Move::Done(Ok(()))
    } else {
        match progress(plan[0], replies) {
            Progress::Due(action) => Move::Do(action),
            Progress::Broken(message) => Move::Done(Err(message)),
            Progress::Through(n) => plan_move(plan.drop_first(), replies.skip(n)),
        }
    }
}

enum Pass {
    Due(Action),
    Through(usize),
    Broken(String),
}

impl Pass {
    spec fn says(self, from: int, p: Progress) -> bool {
        match self {
            Pass::Due(action) => p == Progress::Due(action@),
            Pass::Through(to) => p == Progress::Through(to - from),
            Pass::Broken(message) => p == Progress::Broken(message@),
        }
    }
}

fn pass_entry(entry: &PlanEntry, replies: &[Reply], from: usize) -> (r: Pass)
    requires
        from <= replies@.len(),
    ensures
        r.says(from as int, progress(entry@, replies@.skip(from as int))),
        r matches Pass::Through(to) ==> from <= to <= replies@.len(),
{
    let ghost rest = replies@.skip(from as int);
    assert(forall|k: int| 0 <= k < rest.len() ==> rest[k] == replies@[from + k]);
    match entry {
        PlanEntry::Access { guard, absent, action, fallback, failure } => {
            let mut at: usize = from;
            if let Some(path) = guard {
                if at == replies.len() {
                    return Pass::Due(Action::Probe(path.clone()));
                }
                if !replies[at].present() {
                    return match absent {
                        Some(message) => Pass::Broken(message.clone()),
                        None => Pass::Through(at + 1),
                    };
                }
                at = at + 1;
            }
            if at == replies.len() {
                return Pass::Due(action.clone());
            }
            match replies[at].failure() {
                None => Pass::Through(at + 1),
                Some(reason) => match fallback {
                    Some(other) => if at + 1 == replies.len() {
                        Pass::Due(other.clone())
                    } else {
                        Pass::Through(at + 2)
                    },
                    None => match failure {
                        Some(prefix) => Pass::Broken(join(prefix.as_str(), reason.as_str())),
                        None => Pass::Through(at + 1),
                    },
                },
            }
        },
        PlanEntry::Brightness { light, percent } => {
            if from == replies.len() {
                Pass::Due(Action::Read(join(light.as_str(), "/max_brightness")))
            } else if from + 1 == replies.len() {
                let max = read_small_number(&replies[from], 255);
                Pass::Due(
                    Action::Write(
                        join(light.as_str(), "/brightness"),
                        decimal_of(scale(*percent, max)),
                    ),
                )
            } else {
                Pass::Through(from + 2)
            }
        },
    }
}

/// Takes the next step of a plan whose replies stand in the list from `from` on.
pub fn run_plan(plan: &Vec<PlanEntry>, replies: &[Reply], from: usize) -> (r: Step<()>)
    requires
        from <= replies@.len(),
    ensures
        r@ == plan_move(entries(plan@), replies@.skip(from as int)),
{
    let mut i: usize = 0;
    let mut at: usize = from;
    assert(entries(plan@).skip(0) =~= entries(plan@));
    while i < plan.len()
        invariant
            i <= plan@.len(),
            at <= replies@.len(),
            from <= replies@.len(),
            plan_move(entries(plan@), replies@.skip(from as int)) == plan_move(
                entries(plan@).skip(i as int),
                replies@.skip(at as int),
            ),
        decreases plan@.len() - i,
    {
        let ghost rest = entries(plan@).skip(i as int);
        assert(rest[0] == plan@[i as int]@);
        assert(rest.drop_first() =~= entries(plan@).skip(i + 1));
        match pass_entry(&plan[i], replies, at) {
            Pass::Due(action) => {
                return Step::Do(action);
            },
            Pass::Broken(message) => {
                return Step::Done(Err(message));
            },
            Pass::Through(to) => {
                assert(replies@.skip(at as int).skip(to - at) =~= replies@.skip(to as int));
                at = to;
            },
        }
        i = i + 1;
    }
    Step::Done(Ok(()))
}

/// Builds an access whose failure is ignored.
pub fn plan_attempt(action: Action) -> (r: PlanEntry)
    ensures
        r@ == attempt(action@),
{
    PlanEntry::Access { guard: None, absent: None, action, fallback: None, failure: None }
}

/// Builds an access whose failure ends the plan.
pub fn plan_demand(action: Action, failure: String) -> (r: PlanEntry)
    ensures
        r@ == demand(action@, failure@),
{
    PlanEntry::Access { guard: None, absent: None, action, fallback: None, failure: Some(failure) }
}

/// An entry that cannot fail its plan.
pub open spec fn lenient(entry: Entry) -> bool {
    match entry {
        Entry::Access { absent, fallback, failure, .. } => absent is None && (fallback is Some
            || failure is None),
        Entry::Brightness { .. } => true,
    }
}

/// A plan of lenient entries.
pub open spec fn all_lenient(plan: Seq<Entry>) -> bool {
    forall|i: int| 0 <= i < plan.len() ==> lenient(#[trigger] plan[i])
}

pub proof fn lemma_lenient_sum(a: Seq<Entry>, b: Seq<Entry>)
    requires
        all_lenient(a),
        all_lenient(b),
    ensures
        all_lenient(a + b),
{
    assert forall|i: int| 0 <= i < (a + b).len() implies lenient(#[trigger] (a + b)[i]) by {
        if i < a.len() {
            assert((a + b)[i] == a[i]);
        } else {
            assert((a + b)[i] == b[i - a.len()]);
        }
    }
}

/// A plan of lenient entries never fails.
pub proof fn lemma_lenient_plan(plan: Seq<Entry>, replies: Seq<Reply>)
    requires
        all_lenient(plan),
    ensures
        plan_move(plan, replies) matches Move::Done(result) ==> result is Ok,
    decreases plan.len(),
{
    if plan.len() > 0 {
        assert(lenient(plan[0]));
        if let Progress::Through(n) = progress(plan[0], replies) {
            let rest = plan.drop_first();
            assert forall|i: int| 0 <= i < rest.len() implies lenient(#[trigger] rest[i]) by {
                assert(rest[i] == plan[i + 1]);
            }
            lemma_lenient_plan(rest, replies.skip(n));
        }
    }
}

/// A plan ends: after three accesses for each of its entries there is an
/// outcome.
pub proof fn law_plan_ends(plan: Seq<Entry>, replies: Seq<Reply>)
    requires
        replies.len() >= 3 * plan.len(),
    ensures
        plan_move(plan, replies) is Done,
    decreases plan.len(),
{
    if plan.len() > 0 {
        if let Progress::Through(n) = progress(plan[0], replies) {
            law_plan_ends(plan.drop_first(), replies.skip(n));
        }
    }
}

} // verus!

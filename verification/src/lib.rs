//! Wire protocol of a text-clustering lookup service: the message model, a compact
//! binary framing and a JSON-shaped tree form of the same messages.
//!
//! Every message type has a mathematical view (`@`); both codecs are specified over
//! those views, so a contract never depends on how a `String` or a `Vec` is laid out.

use vstd::prelude::*;

pub mod bin;
pub mod canonical;
pub mod framing;
pub mod json;
pub mod le;
pub mod laws;
pub mod scalars;
pub mod scan;
pub mod text;
pub mod tree;
pub mod tree_laws;
pub mod wire;
pub mod double;

pub use double::{Double, Single};

verus! {

/// Acknowledgement discipline of a request: `Sync` makes the sender wait for a reply.
#[derive(Debug)]
pub enum Trans<UD> {
    Async(Req<UD>),
    Sync(Req<UD>),
}

/// A client request.
#[derive(Debug)]
pub enum Req<UD> {
    Init,
    Lookup(Workload<LookupTask<UD>>),
    Terminate,
}

/// One item, or a batch of items in submission order.
#[derive(Debug)]
pub enum Workload<T> {
    Single(T),
    Many(Vec<T>),
}

/// One unit of work: the text to match, the wanted shape of the answer and what to do
/// after the lookup.
#[derive(Debug)]
pub struct LookupTask<UD> {
    pub text: String,
    pub result: LookupType,
    pub post_action: PostAction<UD>,
}

/// Which matches the requester wants back.
#[derive(Debug, Clone, Copy, PartialEq, Eq)]
pub enum LookupType {
    All,
    Best,
    BestOrMine,
}

/// What follows a lookup.
#[derive(Debug)]
pub enum PostAction<UD> {
    NoAction,
    InsertNew { cond: InsertCond, assign: ClusterAssign, user_data: UD },
}

/// Gate of the insertion step.
#[derive(Debug, Clone, Copy, PartialEq, Eq)]
pub enum InsertCond {
    Always,
    BestSimLessThan(Double),
}

/// How the identity of a new cluster is chosen.
#[derive(Debug, Clone, Copy, PartialEq, Eq)]
pub struct ClusterAssign {
    pub cond: AssignCond,
    pub choice: ClusterChoice,
}

/// Gate of the assignment step.
#[derive(Debug, Clone, Copy, PartialEq, Eq)]
pub enum AssignCond {
    Always,
    BestSimLessThan(Double),
}

/// Who names the new cluster.
#[derive(Debug, Clone, Copy, PartialEq, Eq)]
pub enum ClusterChoice {
    ServerChoice,
    ClientChoice(u64),
}

/// A worker reply.
#[derive(Debug)]
pub enum Rep<UD> {
    InitAck,
    Result(Workload<LookupResult<UD>>),
    TerminateAck,
    Unexpected(Req<UD>),
    TooBusy,
    WantCrash,
}

/// Outcome of one lookup task.
#[derive(Debug)]
pub enum LookupResult<UD> {
    EmptySet,
    Best(Match<UD>),
    Neighbours(Workload<Match<UD>>),
    Error(String),
}

/// One cluster hit.
#[derive(Debug)]
pub struct Match<UD> {
    pub cluster_id: u64,
    pub similarity: Double,
    pub user_data: UD,
}

/// View of [`Trans`].
pub enum TransView<U> {
    Async(ReqView<U>),
    Sync(ReqView<U>),
}

/// View of [`Req`].
pub enum ReqView<U> {
    Init,
    Lookup(WorkloadView<LookupTaskView<U>>),
    Terminate,
}

/// View of [`Workload`]: a batch is a sequence.
pub enum WorkloadView<V> {
    Single(V),
    Many(Seq<V>),
}

/// View of [`LookupTask`].
pub struct LookupTaskView<U> {
    pub text: Seq<char>,
    pub result: LookupType,
    pub post_action: PostActionView<U>,
}

/// View of [`PostAction`].
pub enum PostActionView<U> {
    NoAction,
    InsertNew { cond: InsertCond, assign: ClusterAssign, user_data: U },
}

/// View of [`Rep`].
pub enum RepView<U> {
    InitAck,
    Result(WorkloadView<LookupResultView<U>>),
    TerminateAck,
    Unexpected(ReqView<U>),
    TooBusy,
    WantCrash,
}

/// View of [`LookupResult`].
pub enum LookupResultView<U> {
    EmptySet,
    Best(MatchView<U>),
    Neighbours(WorkloadView<MatchView<U>>),
    Error(Seq<char>),
}

/// View of [`Match`].
pub struct MatchView<U> {
    pub cluster_id: u64,
    pub similarity: Double,
    pub user_data: U,
}

impl<UD: View> View for Trans<UD> {
    type V = TransView<UD::V>;

    open spec fn view(&self) -> TransView<UD::V> {
        match self {
            Trans::Async(req) => TransView::Async(req@),
            Trans::Sync(req) => TransView::Sync(req@),
        }
    }
}

impl<UD: View> View for Req<UD> {
    type V = ReqView<UD::V>;

    open spec fn view(&self) -> ReqView<UD::V> {
        match self {
            Req::Init => ReqView::Init,
            Req::Lookup(workload) => ReqView::Lookup(workload@),
            Req::Terminate => ReqView::Terminate,
        }
    }
}

impl<T: View> View for Workload<T> {
    type V = WorkloadView<T::V>;

    open spec fn view(&self) -> WorkloadView<T::V> {
        match self {
            Workload::Single(value) => WorkloadView::Single(value@),
            Workload::Many(values) => WorkloadView::Many(views_of(values@)),
        }
    }
}

/// The views of the items of `items`, in order.
pub open spec fn views_of<T: View>(items: Seq<T>) -> Seq<T::V> {
    Seq::new(items.len(), |i: int| items[i]@)
}

impl<UD: View> View for LookupTask<UD> {
    type V = LookupTaskView<UD::V>;

    open spec fn view(&self) -> LookupTaskView<UD::V> {
        LookupTaskView { text: self.text@, result: self.result, post_action: self.post_action@ }
    }
}

impl View for LookupType {
    type V = LookupType;

    open spec fn view(&self) -> LookupType {
        *self
    }
}

impl<UD: View> View for PostAction<UD> {
    type V = PostActionView<UD::V>;

    open spec fn view(&self) -> PostActionView<UD::V> {
        match self {
            PostAction::NoAction => PostActionView::NoAction,
            PostAction::InsertNew { cond, assign, user_data } => PostActionView::InsertNew {
                cond: *cond,
                assign: *assign,
                user_data: user_data@,
            },
        }
    }
}

impl View for InsertCond {
    type V = InsertCond;

    open spec fn view(&self) -> InsertCond {
        *self
    }
}

impl View for ClusterAssign {
    type V = ClusterAssign;

    open spec fn view(&self) -> ClusterAssign {
        *self
    }
}

impl View for AssignCond {
    type V = AssignCond;

    open spec fn view(&self) -> AssignCond {
        *self
    }
}

impl View for ClusterChoice {
    type V = ClusterChoice;

    open spec fn view(&self) -> ClusterChoice {
        *self
    }
}

impl<UD: View> View for Rep<UD> {
    type V = RepView<UD::V>;

    open spec fn view(&self) -> RepView<UD::V> {
        match self {
            Rep::InitAck => RepView::InitAck,
            Rep::Result(workload) => RepView::Result(workload@),
            Rep::TerminateAck => RepView::TerminateAck,
            Rep::Unexpected(req) => RepView::Unexpected(req@),
            Rep::TooBusy => RepView::TooBusy,
            Rep::WantCrash => RepView::WantCrash,
        }
    }
}

impl<UD: View> View for LookupResult<UD> {
    type V = LookupResultView<UD::V>;

    open spec fn view(&self) -> LookupResultView<UD::V> {
        match self {
            LookupResult::EmptySet => LookupResultView::EmptySet,
            LookupResult::Best(m) => LookupResultView::Best(m@),
            LookupResult::Neighbours(workload) => LookupResultView::Neighbours(workload@),
            LookupResult::Error(message) => LookupResultView::Error(message@),
        }
    }
}

impl<UD: View> View for Match<UD> {
    type V = MatchView<UD::V>;

    open spec fn view(&self) -> MatchView<UD::V> {
        MatchView {
            cluster_id: self.cluster_id,
            similarity: self.similarity,
            user_data: self.user_data@,
        }
    }
}

} // verus!

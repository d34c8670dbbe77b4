//! What holds of the tree codec as a whole: reading the tree of a value gives the value
//! back, as long as its doubles are finite (the tree has no number for the others).
//!
//! The statements are generic in the payload type: they ask of it what they give for the
//! messages built around it.

use vstd::prelude::*;
use crate::double::Double;
use crate::json::{FromJson, JsonFault, ToJson, TreeView};
use crate::tree::{finite_all, read_all, trees_of};
use crate::{
    AssignCond, ClusterAssign, ClusterChoice, InsertCond, LookupResult, LookupResultView,
    LookupTask, LookupTaskView, LookupType, Match, MatchView, PostAction, PostActionView, Rep,
    RepView, Req, ReqView, Trans, TransView, Workload, WorkloadView,
};

verus! {

/// Reading the tree of a finite value gives the value back.
#[verifier::opaque]
pub open spec fn reads_back<T: ToJson + FromJson>() -> bool {
    forall|v: T::V| T::finite(v) ==> #[trigger] T::read(T::tree(v)) == Ok::<T::V, JsonFault>(v)
}

/// No value has an array for its tree, so that in a workload one item can be told from
/// a batch.
#[verifier::opaque]
pub open spec fn never_array<T: ToJson>() -> bool {
    forall|v: T::V| !(#[trigger] T::tree(v) is Array)
}

/// Reading the tree of one value.
pub proof fn lemma_read_back<T: ToJson + FromJson>(v: T::V)
    requires
        reads_back::<T>(),
        T::finite(v),
    ensures
        T::read(T::tree(v)) == Ok::<T::V, JsonFault>(v),
{
    reveal(reads_back);
}

/// The names that stand side by side in the tree form differ from each other.
pub proof fn lemma_names_differ()
    ensures
        "all"@ != "best"@,
        "all"@ != "best_or_mine"@,
        "best"@ != "best_or_mine"@,
        "cond"@ != "choice"@,
        "cond"@ != "assign"@,
        "cond"@ != "user_data"@,
        "assign"@ != "user_data"@,
        "text"@ != "result"@,
        "text"@ != "post_action"@,
        "result"@ != "post_action"@,
        "init"@ != "terminate"@,
        "async"@ != "sync"@,
        "cluster_id"@ != "similarity"@,
        "cluster_id"@ != "user_data"@,
        "similarity"@ != "user_data"@,
        "best"@ != "neighbours"@,
        "best"@ != "error"@,
        "neighbours"@ != "error"@,
        "result"@ != "unexpected"@,
        "init_ack"@ != "terminate_ack"@,
        "init_ack"@ != "too_busy"@,
        "init_ack"@ != "want_crash"@,
        "terminate_ack"@ != "too_busy"@,
        "terminate_ack"@ != "want_crash"@,
        "too_busy"@ != "want_crash"@,
{
    reveal_strlit("all");
    reveal_strlit("best");
    reveal_strlit("best_or_mine");
    reveal_strlit("cond");
    reveal_strlit("choice");
    reveal_strlit("assign");
    reveal_strlit("user_data");
    reveal_strlit("text");
    reveal_strlit("result");
    reveal_strlit("post_action");
    reveal_strlit("init");
    reveal_strlit("terminate");
    reveal_strlit("async");
    reveal_strlit("sync");
    reveal_strlit("cluster_id");
    reveal_strlit("similarity");
    reveal_strlit("neighbours");
    reveal_strlit("error");
    reveal_strlit("unexpected");
    reveal_strlit("init_ack");
    reveal_strlit("terminate_ack");
    reveal_strlit("too_busy");
    reveal_strlit("want_crash");
    assert("all"@.len() == 3);
    assert("best"@.len() == 4);
    assert("best_or_mine"@.len() == 12);
    assert("cond"@.len() == 4);
    assert("choice"@.len() == 6);
    assert("assign"@.len() == 6);
    assert("user_data"@.len() == 9);
    assert("text"@.len() == 4);
    assert("result"@.len() == 6);
    assert("post_action"@.len() == 11);
    assert("init"@.len() == 4);
    assert("terminate"@.len() == 9);
    assert("async"@.len() == 5);
    assert("sync"@.len() == 4);
    assert("cluster_id"@.len() == 10);
    assert("similarity"@.len() == 10);
    assert("cluster_id"@[0] == 'c');
    assert("similarity"@[0] == 's');
    assert("neighbours"@.len() == 10);
    assert("error"@.len() == 5);
    assert("unexpected"@.len() == 10);
    assert("init_ack"@.len() == 8);
    assert("terminate_ack"@.len() == 13);
    assert("too_busy"@.len() == 8);
    assert("want_crash"@.len() == 10);
    assert("init_ack"@[0] == 'i');
    assert("too_busy"@[0] == 't');
}

/// The codec of `String` reads back what it shows.
pub proof fn lemma_string_reads_back()
    ensures
        reads_back::<String>(),
        never_array::<String>(),
{
    reveal(reads_back);
    reveal(never_array);
}

/// The codec of `u64` reads back what it shows.
pub proof fn lemma_u64_reads_back()
    ensures
        reads_back::<u64>(),
        never_array::<u64>(),
{
    reveal(reads_back);
    reveal(never_array);
}

/// The codec of `Double` reads back what it shows.
pub proof fn lemma_double_reads_back()
    ensures
        reads_back::<Double>(),
        never_array::<Double>(),
{
    reveal(reads_back);
    reveal(never_array);
}

/// The tree of a lookup type is read back.
pub proof fn lemma_lookup_type_read_back(v: LookupType)
    ensures
        LookupType::read(LookupType::tree(v)) == Ok::<LookupType, JsonFault>(v),
{
    lemma_names_differ();
}

/// The tree of an insertion gate is read back.
pub proof fn lemma_insert_cond_read_back(v: InsertCond)
    requires
        InsertCond::finite(v),
    ensures
        InsertCond::read(InsertCond::tree(v)) == Ok::<InsertCond, JsonFault>(v),
{
}

/// The tree of an assignment gate is read back.
pub proof fn lemma_assign_cond_read_back(v: AssignCond)
    requires
        AssignCond::finite(v),
    ensures
        AssignCond::read(AssignCond::tree(v)) == Ok::<AssignCond, JsonFault>(v),
{
}

/// The tree of a cluster choice is read back.
pub proof fn lemma_cluster_choice_read_back(v: ClusterChoice)
    ensures
        ClusterChoice::read(ClusterChoice::tree(v)) == Ok::<ClusterChoice, JsonFault>(v),
{
}

/// The tree of a cluster assignment is read back.
pub proof fn lemma_cluster_assign_read_back(v: ClusterAssign)
    requires
        ClusterAssign::finite(v),
    ensures
        ClusterAssign::read(ClusterAssign::tree(v)) == Ok::<ClusterAssign, JsonFault>(v),
{
    lemma_names_differ();
    lemma_assign_cond_read_back(v.cond);
    lemma_cluster_choice_read_back(v.choice);
}

/// The tree of a post action is read back.
pub proof fn lemma_post_action_read_back<UD: ToJson + FromJson>(v: PostActionView<UD::V>)
    requires
        reads_back::<UD>(),
        PostAction::<UD>::finite(v),
    ensures
        PostAction::<UD>::read(PostAction::<UD>::tree(v)) == Ok::<
            PostActionView<UD::V>,
            JsonFault,
        >(v),
{
    lemma_names_differ();
    match v {
        PostActionView::NoAction => {},
        PostActionView::InsertNew { cond, assign, user_data } => {
            lemma_insert_cond_read_back(cond);
            lemma_cluster_assign_read_back(assign);
            lemma_read_back::<UD>(user_data);
        },
    }
}

/// The tree of a lookup task is read back.
pub proof fn lemma_lookup_task_read_back<UD: ToJson + FromJson>(v: LookupTaskView<UD::V>)
    requires
        reads_back::<UD>(),
        LookupTask::<UD>::finite(v),
    ensures
        LookupTask::<UD>::read(LookupTask::<UD>::tree(v)) == Ok::<
            LookupTaskView<UD::V>,
            JsonFault,
        >(v),
{
    lemma_names_differ();
    lemma_lookup_type_read_back(v.result);
    lemma_post_action_read_back::<UD>(v.post_action);
}

/// The trees of the items of a batch are read back in order.
pub proof fn lemma_read_all_back<T: ToJson + FromJson>(items: Seq<T::V>)
    requires
        reads_back::<T>(),
        finite_all::<T>(items),
    ensures
        read_all::<T>(trees_of::<T>(items)) == Ok::<Seq<T::V>, JsonFault>(items),
    decreases items.len(),
{
    let trees = trees_of::<T>(items);
    if items.len() == 0 {
        assert(items =~= Seq::<T::V>::empty());
    } else {
        let others = items.drop_first();
        lemma_read_back::<T>(items[0]);
        assert(trees.drop_first() =~= trees_of::<T>(others));
        assert forall|i: int| 0 <= i < others.len() implies T::finite(#[trigger] others[i]) by {
            assert(others[i] == items[i + 1]);
        }
        lemma_read_all_back::<T>(others);
        assert(seq![items[0]] + others =~= items);
    }
}

/// The tree of a workload is read back, where no item has an array for its tree.
pub proof fn lemma_workload_read_back<T: ToJson + FromJson>(v: WorkloadView<T::V>)
    requires
        reads_back::<T>(),
        never_array::<T>(),
        Workload::<T>::finite(v),
    ensures
        Workload::<T>::read(Workload::<T>::tree(v)) == Ok::<WorkloadView<T::V>, JsonFault>(v),
{
    match v {
        WorkloadView::Single(item) => {
            reveal(never_array);
            assert(!(T::tree(item) is Array));
            lemma_read_back::<T>(item);
        },
        WorkloadView::Many(items) => {
            lemma_read_all_back::<T>(items);
        },
    }
}

/// The codec of `LookupType` reads back what it shows.
pub proof fn lemma_lookup_type_reads_back()
    ensures
        reads_back::<LookupType>(),
        never_array::<LookupType>(),
{
    assert(reads_back::<LookupType>()) by {
        reveal(reads_back);
        assert forall|v: LookupType|
            LookupType::finite(v) implies #[trigger]
            LookupType::read(LookupType::tree(v)) == Ok::<
            LookupType,
            JsonFault,
        >(v) by {
            lemma_lookup_type_read_back(v);
        }
    }
    assert(never_array::<LookupType>()) by {
        reveal(never_array);
    }
}

/// The codec of `InsertCond` reads back what it shows.
pub proof fn lemma_insert_cond_reads_back()
    ensures
        reads_back::<InsertCond>(),
        never_array::<InsertCond>(),
{
    assert(reads_back::<InsertCond>()) by {
        reveal(reads_back);
        assert forall|v: InsertCond|
            InsertCond::finite(v) implies #[trigger]
            InsertCond::read(InsertCond::tree(v)) == Ok::<
            InsertCond,
            JsonFault,
        >(v) by {
            lemma_insert_cond_read_back(v);
        }
    }
    assert(never_array::<InsertCond>()) by {
        reveal(never_array);
    }
}

/// The codec of `AssignCond` reads back what it shows.
pub proof fn lemma_assign_cond_reads_back()
    ensures
        reads_back::<AssignCond>(),
        never_array::<AssignCond>(),
{
    assert(reads_back::<AssignCond>()) by {
        reveal(reads_back);
        assert forall|v: AssignCond|
            AssignCond::finite(v) implies #[trigger]
            AssignCond::read(AssignCond::tree(v)) == Ok::<
            AssignCond,
            JsonFault,
        >(v) by {
            lemma_assign_cond_read_back(v);
        }
    }
    assert(never_array::<AssignCond>()) by {
        reveal(never_array);
    }
}

/// The codec of `ClusterChoice` reads back what it shows.
pub proof fn lemma_cluster_choice_reads_back()
    ensures
        reads_back::<ClusterChoice>(),
        never_array::<ClusterChoice>(),
{
    assert(reads_back::<ClusterChoice>()) by {
        reveal(reads_back);
        assert forall|v: ClusterChoice|
            ClusterChoice::finite(v) implies #[trigger]
            ClusterChoice::read(ClusterChoice::tree(v)) == Ok::<
            ClusterChoice,
            JsonFault,
        >(v) by {
            lemma_cluster_choice_read_back(v);
        }
    }
    assert(never_array::<ClusterChoice>()) by {
        reveal(never_array);
    }
}

/// The codec of `ClusterAssign` reads back what it shows.
pub proof fn lemma_cluster_assign_reads_back()
    ensures
        reads_back::<ClusterAssign>(),
        never_array::<ClusterAssign>(),
{
    assert(reads_back::<ClusterAssign>()) by {
        reveal(reads_back);
        assert forall|v: ClusterAssign|
            ClusterAssign::finite(v) implies #[trigger]
            ClusterAssign::read(ClusterAssign::tree(v)) == Ok::<
            ClusterAssign,
            JsonFault,
        >(v) by {
            lemma_cluster_assign_read_back(v);
        }
    }
    assert(never_array::<ClusterAssign>()) by {
        reveal(never_array);
    }
}

/// The codec of `PostAction` reads back what it shows, where that of its payload does.
pub proof fn lemma_post_action_reads_back<UD: ToJson + FromJson>()
    requires
        reads_back::<UD>(),
    ensures
        reads_back::<PostAction<UD>>(),
        never_array::<PostAction<UD>>(),
{
    assert(reads_back::<PostAction<UD>>()) by {
        reveal(reads_back);
        assert forall|v: PostActionView<UD::V>|
            PostAction::<UD>::finite(v) implies #[trigger]
            PostAction::<UD>::read(PostAction::<UD>::tree(v)) == Ok::<
            PostActionView<UD::V>,
            JsonFault,
        >(v) by {
            lemma_post_action_read_back::<UD>(v);
        }
    }
    assert(never_array::<PostAction<UD>>()) by {
        reveal(never_array);
    }
}

/// The codec of `LookupTask` reads back what it shows, where that of its payload does.
pub proof fn lemma_lookup_task_reads_back<UD: ToJson + FromJson>()
    requires
        reads_back::<UD>(),
    ensures
        reads_back::<LookupTask<UD>>(),
        never_array::<LookupTask<UD>>(),
{
    assert(reads_back::<LookupTask<UD>>()) by {
        reveal(reads_back);
        assert forall|v: LookupTaskView<UD::V>|
            LookupTask::<UD>::finite(v) implies #[trigger]
            LookupTask::<UD>::read(LookupTask::<UD>::tree(v)) == Ok::<
            LookupTaskView<UD::V>,
            JsonFault,
        >(v) by {
            lemma_lookup_task_read_back::<UD>(v);
        }
    }
    assert(never_array::<LookupTask<UD>>()) by {
        reveal(never_array);
    }
}

/// The codec of `Workload` reads back what it shows, where that of its payload does.
pub proof fn lemma_workload_reads_back<T: ToJson + FromJson>()
    requires
        reads_back::<T>(),
        never_array::<T>(),
    ensures
        reads_back::<Workload<T>>(),
{
    assert(reads_back::<Workload<T>>()) by {
        reveal(reads_back);
        assert forall|v: WorkloadView<T::V>|
            Workload::<T>::finite(v) implies #[trigger]
            Workload::<T>::read(Workload::<T>::tree(v)) == Ok::<
            WorkloadView<T::V>,
            JsonFault,
        >(v) by {
            lemma_workload_read_back::<T>(v);
        }
    }
}

/// The tree of a request is read back.
pub proof fn lemma_req_read_back<UD: ToJson + FromJson>(v: ReqView<UD::V>)
    requires
        reads_back::<UD>(),
        Req::<UD>::finite(v),
    ensures
        Req::<UD>::read(Req::<UD>::tree(v)) == Ok::<ReqView<UD::V>, JsonFault>(v),
{
    lemma_names_differ();
    match v {
        ReqView::Lookup(workload) => {
            lemma_lookup_task_reads_back::<UD>();
            lemma_workload_read_back::<LookupTask<UD>>(workload);
        },
        _ => {},
    }
}

/// The tree of a transaction is read back.
pub proof fn lemma_trans_read_back<UD: ToJson + FromJson>(v: TransView<UD::V>)
    requires
        reads_back::<UD>(),
        Trans::<UD>::finite(v),
    ensures
        Trans::<UD>::read(Trans::<UD>::tree(v)) == Ok::<TransView<UD::V>, JsonFault>(v),
{
    lemma_names_differ();
    match v {
        TransView::Async(req) => {
            lemma_req_read_back::<UD>(req);
        },
        TransView::Sync(req) => {
            lemma_req_read_back::<UD>(req);
        },
    }
}

/// The tree of a match is read back.
pub proof fn lemma_match_read_back<UD: ToJson + FromJson>(v: MatchView<UD::V>)
    requires
        reads_back::<UD>(),
        Match::<UD>::finite(v),
    ensures
        Match::<UD>::read(Match::<UD>::tree(v)) == Ok::<MatchView<UD::V>, JsonFault>(v),
{
    lemma_names_differ();
    lemma_read_back::<UD>(v.user_data);
}

/// The codec of `Match` reads back what it shows, where that of its payload does.
pub proof fn lemma_match_reads_back<UD: ToJson + FromJson>()
    requires
        reads_back::<UD>(),
    ensures
        reads_back::<Match<UD>>(),
        never_array::<Match<UD>>(),
{
    assert(reads_back::<Match<UD>>()) by {
        reveal(reads_back);
        assert forall|v: MatchView<UD::V>|
            Match::<UD>::finite(v) implies #[trigger]
            Match::<UD>::read(Match::<UD>::tree(v)) == Ok::<
            MatchView<UD::V>,
            JsonFault,
        >(v) by {
            lemma_match_read_back::<UD>(v);
        }
    }
    assert(never_array::<Match<UD>>()) by {
        reveal(never_array);
    }
}

/// The tree of a lookup result is read back.
pub proof fn lemma_lookup_result_read_back<UD: ToJson + FromJson>(v: LookupResultView<UD::V>)
    requires
        reads_back::<UD>(),
        LookupResult::<UD>::finite(v),
    ensures
        LookupResult::<UD>::read(LookupResult::<UD>::tree(v)) == Ok::<
            LookupResultView<UD::V>,
            JsonFault,
        >(v),
{
    lemma_names_differ();
    match v {
        LookupResultView::EmptySet => {},
        LookupResultView::Best(m) => {
            lemma_match_read_back::<UD>(m);
        },
        LookupResultView::Neighbours(workload) => {
            lemma_match_reads_back::<UD>();
            lemma_workload_read_back::<Match<UD>>(workload);
        },
        LookupResultView::Error(message) => {},
    }
}

/// The codec of `LookupResult` reads back what it shows, where that of its payload does.
pub proof fn lemma_lookup_result_reads_back<UD: ToJson + FromJson>()
    requires
        reads_back::<UD>(),
    ensures
        reads_back::<LookupResult<UD>>(),
        never_array::<LookupResult<UD>>(),
{
    assert(reads_back::<LookupResult<UD>>()) by {
        reveal(reads_back);
        assert forall|v: LookupResultView<UD::V>|
            LookupResult::<UD>::finite(v) implies #[trigger]
            LookupResult::<UD>::read(LookupResult::<UD>::tree(v)) == Ok::<
            LookupResultView<UD::V>,
            JsonFault,
        >(v) by {
            lemma_lookup_result_read_back::<UD>(v);
        }
    }
    assert(never_array::<LookupResult<UD>>()) by {
        reveal(never_array);
    }
}

/// The tree of a reply is read back.
pub proof fn lemma_rep_read_back<UD: ToJson + FromJson>(v: RepView<UD::V>)
    requires
        reads_back::<UD>(),
        Rep::<UD>::finite(v),
    ensures
        Rep::<UD>::read(Rep::<UD>::tree(v)) == Ok::<RepView<UD::V>, JsonFault>(v),
{
    lemma_names_differ();
    match v {
        RepView::Result(workload) => {
            lemma_lookup_result_reads_back::<UD>();
            lemma_workload_read_back::<LookupResult<UD>>(workload);
        },
        RepView::Unexpected(req) => {
            lemma_req_read_back::<UD>(req);
        },
        _ => {},
    }
}

/// The codec of `Req` reads back what it shows, where that of its payload does.
pub proof fn lemma_req_reads_back<UD: ToJson + FromJson>()
    requires
        reads_back::<UD>(),
    ensures
        reads_back::<Req<UD>>(),
        never_array::<Req<UD>>(),
{
    assert(reads_back::<Req<UD>>()) by {
        reveal(reads_back);
        assert forall|v: ReqView<UD::V>|
            Req::<UD>::finite(v) implies #[trigger]
            Req::<UD>::read(Req::<UD>::tree(v)) == Ok::<
            ReqView<UD::V>,
            JsonFault,
        >(v) by {
            lemma_req_read_back::<UD>(v);
        }
    }
    assert(never_array::<Req<UD>>()) by {
        reveal(never_array);
    }
}

/// The codec of `Trans` reads back what it shows, where that of its payload does.
pub proof fn lemma_trans_reads_back<UD: ToJson + FromJson>()
    requires
        reads_back::<UD>(),
    ensures
        reads_back::<Trans<UD>>(),
        never_array::<Trans<UD>>(),
{
    assert(reads_back::<Trans<UD>>()) by {
        reveal(reads_back);
        assert forall|v: TransView<UD::V>|
            Trans::<UD>::finite(v) implies #[trigger]
            Trans::<UD>::read(Trans::<UD>::tree(v)) == Ok::<
            TransView<UD::V>,
            JsonFault,
        >(v) by {
            lemma_trans_read_back::<UD>(v);
        }
    }
    assert(never_array::<Trans<UD>>()) by {
        reveal(never_array);
    }
}

/// The codec of `Rep` reads back what it shows, where that of its payload does.
pub proof fn lemma_rep_reads_back<UD: ToJson + FromJson>()
    requires
        reads_back::<UD>(),
    ensures
        reads_back::<Rep<UD>>(),
        never_array::<Rep<UD>>(),
{
    assert(reads_back::<Rep<UD>>()) by {
        reveal(reads_back);
        assert forall|v: RepView<UD::V>|
            Rep::<UD>::finite(v) implies #[trigger]
            Rep::<UD>::read(Rep::<UD>::tree(v)) == Ok::<
            RepView<UD::V>,
            JsonFault,
        >(v) by {
            lemma_rep_read_back::<UD>(v);
        }
    }
    assert(never_array::<Rep<UD>>()) by {
        reveal(never_array);
    }
}

/// Requests and replies are read back from their trees, where the same holds of their
/// payload.
pub proof fn lemma_messages_read_back<UD: ToJson + FromJson>()
    requires
        reads_back::<UD>(),
    ensures
        reads_back::<Trans<UD>>(),
        reads_back::<Rep<UD>>(),
{
    lemma_trans_reads_back::<UD>();
    lemma_rep_reads_back::<UD>();
}

/// Requests and replies that carry a string are read back from their trees.
pub proof fn lemma_string_messages_read_back()
    ensures
        reads_back::<Trans<String>>(),
        reads_back::<Rep<String>>(),
{
    lemma_string_reads_back();
    lemma_messages_read_back::<String>();
}

/// Requests and replies that carry a double are read back from their trees.
pub proof fn lemma_double_messages_read_back()
    ensures
        reads_back::<Trans<Double>>(),
        reads_back::<Rep<Double>>(),
{
    lemma_double_reads_back();
    lemma_messages_read_back::<Double>();
}

/// An empty batch is shown as an empty array, and that array is read as an empty batch.
pub proof fn lemma_empty_batch<T: ToJson + FromJson>()
    ensures
        Workload::<T>::tree(WorkloadView::Many(Seq::empty())) == TreeView::Array(Seq::empty()),
        Workload::<T>::read(TreeView::Array(Seq::empty())) == Ok::<
            WorkloadView<T::V>,
            JsonFault,
        >(WorkloadView::Many(Seq::empty())),
{
    assert(trees_of::<T>(Seq::<T::V>::empty()) =~= Seq::<TreeView>::empty());
}

} // verus!

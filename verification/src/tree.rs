//! The tree form of each message type: which token or which keys stand for which variant.

use vstd::prelude::*;
use crate::double::Double;
use crate::json::{
    lemma_array_view, member, same_text, FromJson, Tree, JsonDecodeError, JsonFault, TreeView,
    Object, Read, ToJson,
};
use crate::views_of;
use crate::{
    AssignCond, ClusterAssign, ClusterChoice, InsertCond, LookupResult, LookupResultView,
    LookupTask, LookupTaskView, LookupType, Match, MatchView, PostAction, PostActionView, Rep,
    RepView, Req, ReqView, Trans, TransView, Workload, WorkloadView,
};

verus! {

/// The tree that is the token `name`.
pub open spec fn token(name: &str) -> TreeView {
    TreeView::String(name@)
}

/// The tree that is an object with one member.
pub open spec fn object1(key: &str, value: TreeView) -> TreeView {
    TreeView::Object(Map::empty().insert(key@, value))
}

impl ToJson for String {
    open spec fn tree(v: Seq<char>) -> TreeView {
        TreeView::String(v)
    }

    open spec fn finite(v: Seq<char>) -> bool {
        true
    }

    fn to_json(&self) -> (json: Tree) {
        Tree::String(self.clone())
    }
}

impl FromJson for String {
    open spec fn read(tree: TreeView) -> Read<Seq<char>> {
        match tree {
            TreeView::String(v) => Ok(v),
            _ => Err(JsonFault::UnexpectedToken(tree)),
        }
    }

    fn from_json<'a>(json: &'a Tree) -> (r: Result<String, JsonDecodeError<'a>>) {
        match json {
            Tree::String(value) => Ok(value.clone()),
            _ => Err(JsonDecodeError::UnexpectedToken(json)),
        }
    }
}

impl ToJson for u64 {
    open spec fn tree(v: u64) -> TreeView {
        TreeView::U64(v)
    }

    open spec fn finite(v: u64) -> bool {
        true
    }

    fn to_json(&self) -> (json: Tree) {
        Tree::U64(*self)
    }
}

impl FromJson for u64 {
    open spec fn read(tree: TreeView) -> Read<u64> {
        match tree {
            TreeView::U64(v) => Ok(v),
            _ => Err(JsonFault::UnexpectedToken(tree)),
        }
    }

    fn from_json<'a>(json: &'a Tree) -> (r: Result<u64, JsonDecodeError<'a>>) {
        match json {
            Tree::U64(value) => Ok(*value),
            _ => Err(JsonDecodeError::UnexpectedToken(json)),
        }
    }
}

impl ToJson for Double {
    open spec fn tree(v: Double) -> TreeView {
        if v.is_finite() {
            TreeView::F64(v)
        } else {
            TreeView::Null
        }
    }

    open spec fn finite(v: Double) -> bool {
        v.is_finite()
    }

    fn to_json(&self) -> (json: Tree) {
        if self.is_finite() {
            Tree::F64(*self)
        } else {
            Tree::Null
        }
    }
}

impl FromJson for Double {
    open spec fn read(tree: TreeView) -> Read<Double> {
        match tree {
            TreeView::F64(v) => Ok(v),
            _ => Err(JsonFault::UnexpectedToken(tree)),
        }
    }

    fn from_json<'a>(json: &'a Tree) -> (r: Result<Double, JsonDecodeError<'a>>) {
        match json {
            Tree::F64(value) => Ok(*value),
            _ => Err(JsonDecodeError::UnexpectedToken(json)),
        }
    }
}

impl ToJson for LookupType {
    open spec fn tree(v: LookupType) -> TreeView {
        match v {
            LookupType::All => token("all"),
            LookupType::Best => token("best"),
            LookupType::BestOrMine => token("best_or_mine"),
        }
    }

    open spec fn finite(v: LookupType) -> bool {
        true
    }

    fn to_json(&self) -> (json: Tree) {
        match self {
            LookupType::All => Tree::String("all".to_owned()),
            LookupType::Best => Tree::String("best".to_owned()),
            LookupType::BestOrMine => Tree::String("best_or_mine".to_owned()),
        }
    }
}

impl FromJson for LookupType {
    open spec fn read(tree: TreeView) -> Read<LookupType> {
        if tree == token("all") {
            Ok(LookupType::All)
        } else if tree == token("best") {
            Ok(LookupType::Best)
        } else if tree == token("best_or_mine") {
            Ok(LookupType::BestOrMine)
        } else {
            Err(JsonFault::UnexpectedToken(tree))
        }
    }

    fn from_json<'a>(json: &'a Tree) -> (r: Result<LookupType, JsonDecodeError<'a>>) {
        match json {
            Tree::String(name) => {
                if same_text(name.as_str(), "all") {
                    Ok(LookupType::All)
                } else if same_text(name.as_str(), "best") {
                    Ok(LookupType::Best)
                } else if same_text(name.as_str(), "best_or_mine") {
                    Ok(LookupType::BestOrMine)
                } else {
                    Err(JsonDecodeError::UnexpectedToken(json))
                }
            },
            _ => Err(JsonDecodeError::UnexpectedToken(json)),
        }
    }
}

impl ToJson for InsertCond {
    open spec fn tree(v: InsertCond) -> TreeView {
        match v {
            InsertCond::Always => token("always"),
            InsertCond::BestSimLessThan(sim) => object1("best_sim_less_than", Double::tree(sim)),
        }
    }

    open spec fn finite(v: InsertCond) -> bool {
        match v {
            InsertCond::Always => true,
            InsertCond::BestSimLessThan(sim) => sim.is_finite(),
        }
    }

    fn to_json(&self) -> (json: Tree) {
        match self {
            InsertCond::Always => Tree::String("always".to_owned()),
            InsertCond::BestSimLessThan(sim) => {
                let mut o = Object::new();
                o.insert("best_sim_less_than".to_owned(), sim.to_json());
                Tree::Object(o)
            },
        }
    }
}

impl FromJson for InsertCond {
    open spec fn read(tree: TreeView) -> Read<InsertCond> {
        if tree == token("always") {
            Ok(InsertCond::Always)
        } else if tree is Object {
            match member(tree, "best_sim_less_than"@) {
                Some(TreeView::F64(sim)) => Ok(InsertCond::BestSimLessThan(sim)),
                _ => Err(JsonFault::MalformedObject(tree)),
            }
        } else {
            Err(JsonFault::UnexpectedToken(tree))
        }
    }

    fn from_json<'a>(json: &'a Tree) -> (r: Result<InsertCond, JsonDecodeError<'a>>) {
        match json {
            Tree::String(name) => {
                if same_text(name.as_str(), "always") {
                    Ok(InsertCond::Always)
                } else {
                    Err(JsonDecodeError::UnexpectedToken(json))
                }
            },
            Tree::Object(obj) => match obj.get("best_sim_less_than") {
                Some(Tree::F64(sim)) => Ok(InsertCond::BestSimLessThan(*sim)),
                _ => Err(JsonDecodeError::MalformedObject(json)),
            },
            _ => Err(JsonDecodeError::UnexpectedToken(json)),
        }
    }
}

impl ToJson for AssignCond {
    open spec fn tree(v: AssignCond) -> TreeView {
        match v {
            AssignCond::Always => token("always"),
            AssignCond::BestSimLessThan(sim) => object1("best_sim_less_than", Double::tree(sim)),
        }
    }

    open spec fn finite(v: AssignCond) -> bool {
        match v {
            AssignCond::Always => true,
            AssignCond::BestSimLessThan(sim) => sim.is_finite(),
        }
    }

    fn to_json(&self) -> (json: Tree) {
        match self {
            AssignCond::Always => Tree::String("always".to_owned()),
            AssignCond::BestSimLessThan(sim) => {
                let mut o = Object::new();
                o.insert("best_sim_less_than".to_owned(), sim.to_json());
                Tree::Object(o)
            },
        }
    }
}

impl FromJson for AssignCond {
    open spec fn read(tree: TreeView) -> Read<AssignCond> {
        if tree == token("always") {
            Ok(AssignCond::Always)
        } else if tree is Object {
            match member(tree, "best_sim_less_than"@) {
                Some(TreeView::F64(sim)) => Ok(AssignCond::BestSimLessThan(sim)),
                _ => Err(JsonFault::MalformedObject(tree)),
            }
        } else {
            Err(JsonFault::UnexpectedToken(tree))
        }
    }

    fn from_json<'a>(json: &'a Tree) -> (r: Result<AssignCond, JsonDecodeError<'a>>) {
        match json {
            Tree::String(name) => {
                if same_text(name.as_str(), "always") {
                    Ok(AssignCond::Always)
                } else {
                    Err(JsonDecodeError::UnexpectedToken(json))
                }
            },
            Tree::Object(obj) => match obj.get("best_sim_less_than") {
                Some(Tree::F64(sim)) => Ok(AssignCond::BestSimLessThan(*sim)),
                _ => Err(JsonDecodeError::MalformedObject(json)),
            },
            _ => Err(JsonDecodeError::UnexpectedToken(json)),
        }
    }
}

impl ToJson for ClusterChoice {
    open spec fn tree(v: ClusterChoice) -> TreeView {
        match v {
            ClusterChoice::ServerChoice => token("server_choice"),
            ClusterChoice::ClientChoice(cluster_id) => object1(
                "client_choice",
                TreeView::U64(cluster_id),
            ),
        }
    }

    open spec fn finite(v: ClusterChoice) -> bool {
        true
    }

    fn to_json(&self) -> (json: Tree) {
        match self {
            ClusterChoice::ServerChoice => Tree::String("server_choice".to_owned()),
            ClusterChoice::ClientChoice(cluster_id) => {
                let mut o = Object::new();
                o.insert("client_choice".to_owned(), cluster_id.to_json());
                Tree::Object(o)
            },
        }
    }
}

impl FromJson for ClusterChoice {
    open spec fn read(tree: TreeView) -> Read<ClusterChoice> {
        if tree == token("server_choice") {
            Ok(ClusterChoice::ServerChoice)
        } else if tree is Object {
            match member(tree, "client_choice"@) {
                Some(TreeView::U64(cluster_id)) => Ok(ClusterChoice::ClientChoice(cluster_id)),
                Some(_) => Err(JsonFault::UnexpectedToken(tree)),
                None => Err(JsonFault::MalformedObject(tree)),
            }
        } else {
            Err(JsonFault::UnexpectedToken(tree))
        }
    }

    fn from_json<'a>(json: &'a Tree) -> (r: Result<ClusterChoice, JsonDecodeError<'a>>) {
        match json {
            Tree::String(name) => {
                if same_text(name.as_str(), "server_choice") {
                    Ok(ClusterChoice::ServerChoice)
                } else {
                    Err(JsonDecodeError::UnexpectedToken(json))
                }
            },
            Tree::Object(obj) => match obj.get("client_choice") {
                Some(Tree::U64(cluster_id)) => Ok(ClusterChoice::ClientChoice(*cluster_id)),
                Some(_) => Err(JsonDecodeError::UnexpectedToken(json)),
                None => Err(JsonDecodeError::MalformedObject(json)),
            },
            _ => Err(JsonDecodeError::UnexpectedToken(json)),
        }
    }
}

impl ToJson for ClusterAssign {
    open spec fn tree(v: ClusterAssign) -> TreeView {
        TreeView::Object(
            Map::empty().insert("cond"@, AssignCond::tree(v.cond)).insert(
                "choice"@,
                ClusterChoice::tree(v.choice),
            ),
        )
    }

    open spec fn finite(v: ClusterAssign) -> bool {
        AssignCond::finite(v.cond)
    }

    fn to_json(&self) -> (json: Tree) {
        let mut o = Object::new();
        o.insert("cond".to_owned(), self.cond.to_json());
        o.insert("choice".to_owned(), self.choice.to_json());
        Tree::Object(o)
    }
}

impl FromJson for ClusterAssign {
    open spec fn read(tree: TreeView) -> Read<ClusterAssign> {
        if tree is Object {
            match (member(tree, "cond"@), member(tree, "choice"@)) {
                (Some(cond), Some(choice)) => match AssignCond::read(cond) {
                    Err(e) => Err(e),
                    Ok(cond) => match ClusterChoice::read(choice) {
                        Err(e) => Err(e),
                        Ok(choice) => Ok(ClusterAssign { cond, choice }),
                    },
                },
                _ => Err(JsonFault::MalformedObject(tree)),
            }
        } else {
            Err(JsonFault::UnexpectedToken(tree))
        }
    }

    fn from_json<'a>(json: &'a Tree) -> (r: Result<ClusterAssign, JsonDecodeError<'a>>) {
        match json {
            Tree::Object(obj) => match (obj.get("cond"), obj.get("choice")) {
                (Some(cond), Some(choice)) => {
                    let cond = AssignCond::from_json(cond)?;
                    let choice = ClusterChoice::from_json(choice)?;
                    Ok(ClusterAssign { cond, choice })
                },
                _ => Err(JsonDecodeError::MalformedObject(json)),
            },
            _ => Err(JsonDecodeError::UnexpectedToken(json)),
        }
    }
}

impl<UD: ToJson> ToJson for PostAction<UD> {
    open spec fn tree(v: PostActionView<UD::V>) -> TreeView {
        match v {
            PostActionView::NoAction => token("none"),
            PostActionView::InsertNew { cond, assign, user_data } => TreeView::Object(
                Map::empty().insert("cond"@, InsertCond::tree(cond)).insert(
                    "assign"@,
                    ClusterAssign::tree(assign),
                ).insert("user_data"@, UD::tree(user_data)),
            ),
        }
    }

    open spec fn finite(v: PostActionView<UD::V>) -> bool {
        match v {
            PostActionView::NoAction => true,
            PostActionView::InsertNew { cond, assign, user_data } => InsertCond::finite(cond)
                && ClusterAssign::finite(assign) && UD::finite(user_data),
        }
    }

    fn to_json(&self) -> (json: Tree) {
        match self {
            PostAction::NoAction => Tree::String("none".to_owned()),
            PostAction::InsertNew { cond, assign, user_data } => {
                let mut o = Object::new();
                o.insert("cond".to_owned(), cond.to_json());
                o.insert("assign".to_owned(), assign.to_json());
                o.insert("user_data".to_owned(), user_data.to_json());
                Tree::Object(o)
            },
        }
    }
}

impl<UD: FromJson> FromJson for PostAction<UD> {
    open spec fn read(tree: TreeView) -> Read<PostActionView<UD::V>> {
        if tree == token("none") {
            Ok(PostActionView::NoAction)
        } else if tree is Object {
            match (member(tree, "cond"@), member(tree, "assign"@), member(tree, "user_data"@)) {
                (Some(cond), Some(assign), Some(user_data)) => match InsertCond::read(cond) {
                    Err(e) => Err(e),
                    Ok(cond) => match ClusterAssign::read(assign) {
                        Err(e) => Err(e),
                        Ok(assign) => match UD::read(user_data) {
                            Err(e) => Err(e),
                            Ok(user_data) => Ok(
                                PostActionView::InsertNew { cond, assign, user_data },
                            ),
                        },
                    },
                },
                _ => Err(JsonFault::MalformedObject(tree)),
            }
        } else {
            Err(JsonFault::UnexpectedToken(tree))
        }
    }

    fn from_json<'a>(json: &'a Tree) -> (r: Result<PostAction<UD>, JsonDecodeError<'a>>) {
        match json {
            Tree::String(name) => {
                if same_text(name.as_str(), "none") {
                    Ok(PostAction::NoAction)
                } else {
                    Err(JsonDecodeError::UnexpectedToken(json))
                }
            },
            Tree::Object(obj) => match (obj.get("cond"), obj.get("assign"), obj.get("user_data")) {
                (Some(cond), Some(assign), Some(user_data)) => {
                    let cond = InsertCond::from_json(cond)?;
                    let assign = ClusterAssign::from_json(assign)?;
                    let user_data = UD::from_json(user_data)?;
                    Ok(PostAction::InsertNew { cond, assign, user_data })
                },
                _ => Err(JsonDecodeError::MalformedObject(json)),
            },
            _ => Err(JsonDecodeError::UnexpectedToken(json)),
        }
    }
}

impl<UD: ToJson> ToJson for LookupTask<UD> {
    open spec fn tree(v: LookupTaskView<UD::V>) -> TreeView {
        TreeView::Object(
            Map::empty().insert("text"@, TreeView::String(v.text)).insert(
                "result"@,
                LookupType::tree(v.result),
            ).insert("post_action"@, PostAction::<UD>::tree(v.post_action)),
        )
    }

    open spec fn finite(v: LookupTaskView<UD::V>) -> bool {
        PostAction::<UD>::finite(v.post_action)
    }

    fn to_json(&self) -> (json: Tree) {
        let mut o = Object::new();
        o.insert("text".to_owned(), self.text.to_json());
        o.insert("result".to_owned(), self.result.to_json());
        o.insert("post_action".to_owned(), self.post_action.to_json());
        Tree::Object(o)
    }
}

impl<UD: FromJson> FromJson for LookupTask<UD> {
    open spec fn read(tree: TreeView) -> Read<LookupTaskView<UD::V>> {
        if tree is Object {
            match (member(tree, "text"@), member(tree, "result"@), member(tree, "post_action"@)) {
                (Some(text), Some(result), Some(post_action)) => match String::read(text) {
                    Err(e) => Err(e),
                    Ok(text) => match LookupType::read(result) {
                        Err(e) => Err(e),
                        Ok(result) => match PostAction::<UD>::read(post_action) {
                            Err(e) => Err(e),
                            Ok(post_action) => Ok(LookupTaskView { text, result, post_action }),
                        },
                    },
                },
                _ => Err(JsonFault::MalformedObject(tree)),
            }
        } else {
            Err(JsonFault::UnexpectedToken(tree))
        }
    }

    fn from_json<'a>(json: &'a Tree) -> (r: Result<LookupTask<UD>, JsonDecodeError<'a>>) {
        match json {
            Tree::Object(obj) => match (
                obj.get("text"),
                obj.get("result"),
                obj.get("post_action"),
            ) {
                (Some(text), Some(result), Some(post_action)) => {
                    let text = String::from_json(text)?;
                    let result = LookupType::from_json(result)?;
                    let post_action = PostAction::from_json(post_action)?;
                    Ok(LookupTask { text, result, post_action })
                },
                _ => Err(JsonDecodeError::MalformedObject(json)),
            },
            _ => Err(JsonDecodeError::UnexpectedToken(json)),
        }
    }
}

/// The trees of the items of a batch, in order.
pub open spec fn trees_of<T: ToJson>(items: Seq<T::V>) -> Seq<TreeView> {
    Seq::new(items.len(), |i: int| T::tree(items[i]))
}

/// Whether every item of a batch is finite.
pub open spec fn finite_all<T: ToJson>(items: Seq<T::V>) -> bool {
    forall|i: int| 0 <= i < items.len() ==> T::finite(#[trigger] items[i])
}

/// What reading the elements of an array one after the other gives: the items, or the
/// fault of the first element that cannot be read.
pub open spec fn read_all<T: FromJson>(elements: Seq<TreeView>) -> Read<Seq<T::V>>
    decreases elements.len(),
{
    if elements.len() == 0 {
        Ok(Seq::empty())
    } else {
        match T::read(elements[0]) {
            Err(e) => Err(e),
            Ok(first) => match read_all::<T>(elements.drop_first()) {
                Err(e) => Err(e),
                Ok(others) => Ok(seq![first] + others),
            },
        }
    }
}

/// The outcome `p` with `front` put before the items that it holds.
pub open spec fn behind<V>(front: Seq<V>, p: Read<Seq<V>>) -> Read<Seq<V>> {
    match p {
        Ok(items) => Ok(front + items),
        Err(e) => Err(e),
    }
}

impl<T: ToJson> ToJson for Workload<T> {
    open spec fn tree(v: WorkloadView<T::V>) -> TreeView {
        match v {
            WorkloadView::Single(item) => T::tree(item),
            WorkloadView::Many(items) => TreeView::Array(trees_of::<T>(items)),
        }
    }

    open spec fn finite(v: WorkloadView<T::V>) -> bool {
        match v {
            WorkloadView::Single(item) => T::finite(item),
            WorkloadView::Many(items) => finite_all::<T>(items),
        }
    }

    fn to_json(&self) -> (json: Tree) {
        match self {
            Workload::Single(value) => value.to_json(),
            Workload::Many(values) => {
                let mut elements: Vec<Tree> = Vec::new();
                let mut i: usize = 0;
                while i < values.len()
                    invariant
                        i <= values.len(),
                        elements@.len() == i,
                        forall|j: int|
                            0 <= j < i ==> (#[trigger] elements@[j])@ == T::tree(values@[j]@),
                    decreases values.len() - i,
                {
                    elements.push(values[i].to_json());
                    i += 1;
                }
                proof {
                    lemma_array_view(elements);
                    assert(Tree::Array(elements)@->Array_0 =~= trees_of::<T>(views_of(values@)));
                }
                Tree::Array(elements)
            },
        }
    }
}

impl<T: FromJson> FromJson for Workload<T> {
    open spec fn read(tree: TreeView) -> Read<WorkloadView<T::V>> {
        match tree {
            TreeView::Array(elements) => match read_all::<T>(elements) {
                Ok(items) => Ok(WorkloadView::Many(items)),
                Err(e) => Err(e),
            },
            _ => match T::read(tree) {
                Ok(item) => Ok(WorkloadView::Single(item)),
                Err(e) => Err(e),
            },
        }
    }

    fn from_json<'a>(json: &'a Tree) -> (r: Result<Workload<T>, JsonDecodeError<'a>>) {
        match json {
            Tree::Array(elements) => {
                let ghost trees = json@->Array_0;
                proof {
                    lemma_array_view(*elements);
                    assert(trees.skip(0) =~= trees);
                    assert(views_of(Seq::<T>::empty()) =~= Seq::<T::V>::empty());
                    if let Ok(items) = read_all::<T>(trees) {
                        assert(Seq::<T::V>::empty() + items =~= items);
                    }
                }
                let mut values: Vec<T> = Vec::new();
                let mut i: usize = 0;
                while i < elements.len()
                    invariant
                        i <= elements.len(),
                        json@ == TreeView::Array(trees),
                        trees.len() == elements@.len(),
                        forall|j: int|
                            0 <= j < trees.len() ==> #[trigger] trees[j] == elements@[j]@,
                        read_all::<T>(trees) == behind(
                            views_of(values@),
                            read_all::<T>(trees.skip(i as int)),
                        ),
                    decreases elements.len() - i,
                {
                    let ghost before = views_of(values@);
                    let ghost left = trees.skip(i as int);
                    proof {
                        assert(left[0] == trees[i as int]);
                        assert(left.drop_first() =~= trees.skip(i + 1));
                    }
                    match T::from_json(&elements[i]) {
                        Ok(value) => {
                            values.push(value);
                            proof {
                                assert(views_of(values@) =~= before.push(value@));
                                if let Ok(others) = read_all::<T>(trees.skip(i + 1)) {
                                    assert(before + (seq![value@] + others) =~= before.push(value@)
                                        + others);
                                }
                            }
                        },
                        Err(e) => {
                            return Err(e);
                        },
                    }
                    i += 1;
                }
                proof {
                    assert(trees.skip(i as int) =~= Seq::<TreeView>::empty());
                    assert(views_of(values@) + Seq::<T::V>::empty() =~= views_of(values@));
                }
                Ok(Workload::Many(values))
            },
            _ => match T::from_json(json) {
                Ok(value) => Ok(Workload::Single(value)),
                Err(e) => Err(e),
            },
        }
    }
}

impl<UD: ToJson> ToJson for Req<UD> {
    open spec fn tree(v: ReqView<UD::V>) -> TreeView {
        match v {
            ReqView::Init => token("init"),
            ReqView::Lookup(workload) => object1(
                "lookup",
                Workload::<LookupTask<UD>>::tree(workload),
            ),
            ReqView::Terminate => token("terminate"),
        }
    }

    open spec fn finite(v: ReqView<UD::V>) -> bool {
        match v {
            ReqView::Lookup(workload) => Workload::<LookupTask<UD>>::finite(workload),
            _ => true,
        }
    }

    fn to_json(&self) -> (json: Tree) {
        match self {
            Req::Init => Tree::String("init".to_owned()),
            Req::Lookup(workload) => {
                let mut o = Object::new();
                o.insert("lookup".to_owned(), workload.to_json());
                Tree::Object(o)
            },
            Req::Terminate => Tree::String("terminate".to_owned()),
        }
    }
}

impl<UD: FromJson> FromJson for Req<UD> {
    open spec fn read(tree: TreeView) -> Read<ReqView<UD::V>> {
        if tree == token("init") {
            Ok(ReqView::Init)
        } else if tree == token("terminate") {
            Ok(ReqView::Terminate)
        } else if tree is Object {
            match member(tree, "lookup"@) {
                Some(workload) => match Workload::<LookupTask<UD>>::read(workload) {
                    Ok(workload) => Ok(ReqView::Lookup(workload)),
                    Err(e) => Err(e),
                },
                None => Err(JsonFault::MalformedObject(tree)),
            }
        } else {
            Err(JsonFault::UnexpectedToken(tree))
        }
    }

    fn from_json<'a>(json: &'a Tree) -> (r: Result<Req<UD>, JsonDecodeError<'a>>) {
        match json {
            Tree::String(name) => {
                if same_text(name.as_str(), "init") {
                    Ok(Req::Init)
                } else if same_text(name.as_str(), "terminate") {
                    Ok(Req::Terminate)
                } else {
                    Err(JsonDecodeError::UnexpectedToken(json))
                }
            },
            Tree::Object(obj) => match obj.get("lookup") {
                Some(workload) => Ok(Req::Lookup(Workload::from_json(workload)?)),
                None => Err(JsonDecodeError::MalformedObject(json)),
            },
            _ => Err(JsonDecodeError::UnexpectedToken(json)),
        }
    }
}

impl<UD: ToJson> ToJson for Trans<UD> {
    open spec fn tree(v: TransView<UD::V>) -> TreeView {
        match v {
            TransView::Async(req) => object1("async", Req::<UD>::tree(req)),
            TransView::Sync(req) => object1("sync", Req::<UD>::tree(req)),
        }
    }

    open spec fn finite(v: TransView<UD::V>) -> bool {
        match v {
            TransView::Async(req) => Req::<UD>::finite(req),
            TransView::Sync(req) => Req::<UD>::finite(req),
        }
    }

    fn to_json(&self) -> (json: Tree) {
        match self {
            Trans::Async(req) => {
                let mut o = Object::new();
                o.insert("async".to_owned(), req.to_json());
                Tree::Object(o)
            },
            Trans::Sync(req) => {
                let mut o = Object::new();
                o.insert("sync".to_owned(), req.to_json());
                Tree::Object(o)
            },
        }
    }
}

impl<UD: FromJson> FromJson for Trans<UD> {
    open spec fn read(tree: TreeView) -> Read<TransView<UD::V>> {
        if tree is Object {
            match (member(tree, "async"@), member(tree, "sync"@)) {
                (Some(req), None) => match Req::<UD>::read(req) {
                    Ok(req) => Ok(TransView::Async(req)),
                    Err(e) => Err(e),
                },
                (None, Some(req)) => match Req::<UD>::read(req) {
                    Ok(req) => Ok(TransView::Sync(req)),
                    Err(e) => Err(e),
                },
                _ => Err(JsonFault::MalformedObject(tree)),
            }
        } else {
            Err(JsonFault::UnexpectedToken(tree))
        }
    }

    fn from_json<'a>(json: &'a Tree) -> (r: Result<Trans<UD>, JsonDecodeError<'a>>) {
        match json {
            Tree::Object(obj) => match (obj.get("async"), obj.get("sync")) {
                (Some(req), None) => Ok(Trans::Async(Req::from_json(req)?)),
                (None, Some(req)) => Ok(Trans::Sync(Req::from_json(req)?)),
                _ => Err(JsonDecodeError::MalformedObject(json)),
            },
            _ => Err(JsonDecodeError::UnexpectedToken(json)),
        }
    }
}

impl<UD: ToJson> ToJson for Match<UD> {
    open spec fn tree(v: MatchView<UD::V>) -> TreeView {
        TreeView::Object(
            Map::empty().insert("cluster_id"@, TreeView::U64(v.cluster_id)).insert(
                "similarity"@,
                Double::tree(v.similarity),
            ).insert("user_data"@, UD::tree(v.user_data)),
        )
    }

    open spec fn finite(v: MatchView<UD::V>) -> bool {
        v.similarity.is_finite() && UD::finite(v.user_data)
    }

    fn to_json(&self) -> (json: Tree) {
        let mut o = Object::new();
        o.insert("cluster_id".to_owned(), self.cluster_id.to_json());
        o.insert("similarity".to_owned(), self.similarity.to_json());
        o.insert("user_data".to_owned(), self.user_data.to_json());
        Tree::Object(o)
    }
}

impl<UD: FromJson> FromJson for Match<UD> {
    open spec fn read(tree: TreeView) -> Read<MatchView<UD::V>> {
        if tree is Object {
            match (
                member(tree, "cluster_id"@),
                member(tree, "similarity"@),
                member(tree, "user_data"@),
            ) {
                (
                    Some(TreeView::U64(cluster_id)),
                    Some(TreeView::F64(similarity)),
                    Some(user_data),
                ) => match UD::read(user_data) {
                    Ok(user_data) => Ok(MatchView { cluster_id, similarity, user_data }),
                    Err(e) => Err(e),
                },
                _ => Err(JsonFault::MalformedObject(tree)),
            }
        } else {
            Err(JsonFault::UnexpectedToken(tree))
        }
    }

    fn from_json<'a>(json: &'a Tree) -> (r: Result<Match<UD>, JsonDecodeError<'a>>) {
        match json {
            Tree::Object(obj) => match (
                obj.get("cluster_id"),
                obj.get("similarity"),
                obj.get("user_data"),
            ) {
                (Some(Tree::U64(cluster_id)), Some(Tree::F64(similarity)), Some(user_data)) => {
                    let user_data = UD::from_json(user_data)?;
                    Ok(Match { cluster_id: *cluster_id, similarity: *similarity, user_data })
                },
                _ => Err(JsonDecodeError::MalformedObject(json)),
            },
            _ => Err(JsonDecodeError::UnexpectedToken(json)),
        }
    }
}

impl<UD: ToJson> ToJson for LookupResult<UD> {
    open spec fn tree(v: LookupResultView<UD::V>) -> TreeView {
        match v {
            LookupResultView::EmptySet => TreeView::Null,
            LookupResultView::Best(m) => object1("best", Match::<UD>::tree(m)),
            LookupResultView::Neighbours(workload) => object1(
                "neighbours",
                Workload::<Match<UD>>::tree(workload),
            ),
            LookupResultView::Error(message) => object1("error", TreeView::String(message)),
        }
    }

    open spec fn finite(v: LookupResultView<UD::V>) -> bool {
        match v {
            LookupResultView::Best(m) => Match::<UD>::finite(m),
            LookupResultView::Neighbours(workload) => Workload::<Match<UD>>::finite(workload),
            _ => true,
        }
    }

    fn to_json(&self) -> (json: Tree) {
        match self {
            LookupResult::EmptySet => Tree::Null,
            LookupResult::Best(m) => {
                let mut o = Object::new();
                o.insert("best".to_owned(), m.to_json());
                Tree::Object(o)
            },
            LookupResult::Neighbours(neighbours) => {
                let mut o = Object::new();
                o.insert("neighbours".to_owned(), neighbours.to_json());
                Tree::Object(o)
            },
            LookupResult::Error(message) => {
                let mut o = Object::new();
                o.insert("error".to_owned(), message.to_json());
                Tree::Object(o)
            },
        }
    }
}

impl<UD: FromJson> FromJson for LookupResult<UD> {
    open spec fn read(tree: TreeView) -> Read<LookupResultView<UD::V>> {
        if tree is Null {
            Ok(LookupResultView::EmptySet)
        } else if tree is Object {
            match (member(tree, "best"@), member(tree, "neighbours"@), member(tree, "error"@)) {
                (Some(m), None, None) => match Match::<UD>::read(m) {
                    Ok(m) => Ok(LookupResultView::Best(m)),
                    Err(e) => Err(e),
                },
                (None, Some(workload), None) => match Workload::<Match<UD>>::read(workload) {
                    Ok(workload) => Ok(LookupResultView::Neighbours(workload)),
                    Err(e) => Err(e),
                },
                (None, None, Some(message)) => match String::read(message) {
                    Ok(message) => Ok(LookupResultView::Error(message)),
                    Err(e) => Err(e),
                },
                _ => Err(JsonFault::MalformedObject(tree)),
            }
        } else {
            Err(JsonFault::UnexpectedToken(tree))
        }
    }

    fn from_json<'a>(json: &'a Tree) -> (r: Result<LookupResult<UD>, JsonDecodeError<'a>>) {
        match json {
            Tree::Null => Ok(LookupResult::EmptySet),
            Tree::Object(obj) => match (obj.get("best"), obj.get("neighbours"), obj.get("error")) {
                (Some(m), None, None) => Ok(LookupResult::Best(Match::from_json(m)?)),
                (None, Some(workload), None) => Ok(
                    LookupResult::Neighbours(Workload::from_json(workload)?),
                ),
                (None, None, Some(message)) => Ok(
                    LookupResult::Error(String::from_json(message)?),
                ),
                _ => Err(JsonDecodeError::MalformedObject(json)),
            },
            _ => Err(JsonDecodeError::UnexpectedToken(json)),
        }
    }
}

impl<UD: ToJson> ToJson for Rep<UD> {
    open spec fn tree(v: RepView<UD::V>) -> TreeView {
        match v {
            RepView::InitAck => token("init_ack"),
            RepView::Result(workload) => object1(
                "result",
                Workload::<LookupResult<UD>>::tree(workload),
            ),
            RepView::TerminateAck => token("terminate_ack"),
            RepView::Unexpected(req) => object1("unexpected", Req::<UD>::tree(req)),
            RepView::TooBusy => token("too_busy"),
            RepView::WantCrash => token("want_crash"),
        }
    }

    open spec fn finite(v: RepView<UD::V>) -> bool {
        match v {
            RepView::Result(workload) => Workload::<LookupResult<UD>>::finite(workload),
            RepView::Unexpected(req) => Req::<UD>::finite(req),
            _ => true,
        }
    }

    fn to_json(&self) -> (json: Tree) {
        match self {
            Rep::InitAck => Tree::String("init_ack".to_owned()),
            Rep::Result(result) => {
                let mut o = Object::new();
                o.insert("result".to_owned(), result.to_json());
                Tree::Object(o)
            },
            Rep::TerminateAck => Tree::String("terminate_ack".to_owned()),
            Rep::Unexpected(req) => {
                let mut o = Object::new();
                o.insert("unexpected".to_owned(), req.to_json());
                Tree::Object(o)
            },
            Rep::TooBusy => Tree::String("too_busy".to_owned()),
            Rep::WantCrash => Tree::String("want_crash".to_owned()),
        }
    }
}

impl<UD: FromJson> FromJson for Rep<UD> {
    open spec fn read(tree: TreeView) -> Read<RepView<UD::V>> {
        if tree == token("init_ack") {
            Ok(RepView::InitAck)
        } else if tree == token("terminate_ack") {
            Ok(RepView::TerminateAck)
        } else if tree == token("too_busy") {
            Ok(RepView::TooBusy)
        } else if tree == token("want_crash") {
            Ok(RepView::WantCrash)
        } else if tree is Object {
            match (member(tree, "result"@), member(tree, "unexpected"@)) {
                (Some(workload), None) => match Workload::<LookupResult<UD>>::read(workload) {
                    Ok(workload) => Ok(RepView::Result(workload)),
                    Err(e) => Err(e),
                },
                (None, Some(req)) => match Req::<UD>::read(req) {
                    Ok(req) => Ok(RepView::Unexpected(req)),
                    Err(e) => Err(e),
                },
                _ => Err(JsonFault::MalformedObject(tree)),
            }
        } else {
            Err(JsonFault::UnexpectedToken(tree))
        }
    }

    fn from_json<'a>(json: &'a Tree) -> (r: Result<Rep<UD>, JsonDecodeError<'a>>) {
        match json {
            Tree::String(name) => {
                if same_text(name.as_str(), "init_ack") {
                    Ok(Rep::InitAck)
                } else if same_text(name.as_str(), "terminate_ack") {
                    Ok(Rep::TerminateAck)
                } else if same_text(name.as_str(), "too_busy") {
                    Ok(Rep::TooBusy)
                } else if same_text(name.as_str(), "want_crash") {
                    Ok(Rep::WantCrash)
                } else {
                    Err(JsonDecodeError::UnexpectedToken(json))
                }
            },
            Tree::Object(obj) => match (obj.get("result"), obj.get("unexpected")) {
                (Some(workload), None) => Ok(Rep::Result(Workload::from_json(workload)?)),
                (None, Some(req)) => Ok(Rep::Unexpected(Req::from_json(req)?)),
                _ => Err(JsonDecodeError::MalformedObject(json)),
            },
            _ => Err(JsonDecodeError::UnexpectedToken(json)),
        }
    }
}

} // verus!

//! The binary form of each message type: which tag stands for which variant and in what
//! order the fields follow.

use vstd::prelude::*;
use crate::bin::{Error, FromBin, Parsed, ToBin};
use crate::double::Double;
use crate::framing::{get_u64, get_u8, parse_u64, parse_u8, put_u64, put_u8};
use crate::le::lemma_u64_le;
use crate::scalars::{parse_double, parse_string, wire_string};
use crate::{
    AssignCond, ClusterAssign, ClusterChoice, InsertCond, LookupResult, LookupResultView,
    LookupTask, LookupTaskView, LookupType, Match, MatchView, PostAction, PostActionView, Rep,
    RepView, Req, ReqView, Trans, TransView, Workload,
};

verus! {

impl ToBin for LookupType {
    open spec fn wire(v: LookupType) -> Seq<u8> {
        match v {
            LookupType::All => seq![1u8],
            LookupType::Best => seq![2u8],
            LookupType::BestOrMine => seq![3u8],
        }
    }

    open spec fn fits(v: LookupType) -> bool {
        true
    }

    fn fits_wire(&self) -> (b: bool) {
        true
    }

    fn encode_len(&self) -> (n: usize) {
        1
    }

    fn encode<'a>(&self, area: &'a mut [u8]) -> (rest: &'a mut [u8]) {
        match self {
            LookupType::All => put_u8(area, 1),
            LookupType::Best => put_u8(area, 2),
            LookupType::BestOrMine => put_u8(area, 3),
        }
    }
}

impl FromBin for LookupType {
    open spec fn parse(area: Seq<u8>) -> Parsed<LookupType> {
        match parse_u8(area) {
            Err(e) => Err(e),
            Ok((tag, rest)) => {
                if tag == 1 {
                    Ok((LookupType::All, rest))
                } else if tag == 2 {
                    Ok((LookupType::Best, rest))
                } else if tag == 3 {
                    Ok((LookupType::BestOrMine, rest))
                } else {
                    Err(Error::InvalidTag(tag))
                }
            },
        }
    }

    fn decode<'a>(area: &'a [u8]) -> (r: Result<(LookupType, &'a [u8]), Error>) {
        let (tag, area) = get_u8(area)?;
        if tag == 1 {
            Ok((LookupType::All, area))
        } else if tag == 2 {
            Ok((LookupType::Best, area))
        } else if tag == 3 {
            Ok((LookupType::BestOrMine, area))
        } else {
            Err(Error::InvalidTag(tag))
        }
    }
}

impl ToBin for InsertCond {
    open spec fn wire(v: InsertCond) -> Seq<u8> {
        match v {
            InsertCond::Always => seq![1u8],
            InsertCond::BestSimLessThan(sim) => seq![2u8] + Double::wire(sim),
        }
    }

    open spec fn fits(v: InsertCond) -> bool {
        true
    }

    fn fits_wire(&self) -> (b: bool) {
        true
    }

    fn encode_len(&self) -> (n: usize) {
        proof {
            lemma_u64_le();
        }
        match self {
            InsertCond::Always => 1,
            InsertCond::BestSimLessThan(_) => 9,
        }
    }

    fn encode<'a>(&self, area: &'a mut [u8]) -> (rest: &'a mut [u8]) {
        proof {
            lemma_u64_le();
        }
        match self {
            InsertCond::Always => put_u8(area, 1),
            InsertCond::BestSimLessThan(sim) => {
                let area = put_u8(area, 2);
                sim.encode(area)
            },
        }
    }
}

impl FromBin for InsertCond {
    open spec fn parse(area: Seq<u8>) -> Parsed<InsertCond> {
        match parse_u8(area) {
            Err(e) => Err(e),
            Ok((tag, rest)) => {
                if tag == 1 {
                    Ok((InsertCond::Always, rest))
                } else if tag == 2 {
                    match Double::parse(rest) {
                        Ok((sim, rest)) => Ok((InsertCond::BestSimLessThan(sim), rest)),
                        Err(e) => Err(e),
                    }
                } else {
                    Err(Error::InvalidTag(tag))
                }
            },
        }
    }

    fn decode<'a>(area: &'a [u8]) -> (r: Result<(InsertCond, &'a [u8]), Error>) {
        let (tag, area) = get_u8(area)?;
        if tag == 1 {
            Ok((InsertCond::Always, area))
        } else if tag == 2 {
            let (sim, area) = Double::decode(area)?;
            Ok((InsertCond::BestSimLessThan(sim), area))
        } else {
            Err(Error::InvalidTag(tag))
        }
    }
}

impl ToBin for AssignCond {
    open spec fn wire(v: AssignCond) -> Seq<u8> {
        match v {
            AssignCond::Always => seq![1u8],
            AssignCond::BestSimLessThan(sim) => seq![2u8] + Double::wire(sim),
        }
    }

    open spec fn fits(v: AssignCond) -> bool {
        true
    }

    fn fits_wire(&self) -> (b: bool) {
        true
    }

    fn encode_len(&self) -> (n: usize) {
        proof {
            lemma_u64_le();
        }
        match self {
            AssignCond::Always => 1,
            AssignCond::BestSimLessThan(_) => 9,
        }
    }

    fn encode<'a>(&self, area: &'a mut [u8]) -> (rest: &'a mut [u8]) {
        proof {
            lemma_u64_le();
        }
        match self {
            AssignCond::Always => put_u8(area, 1),
            AssignCond::BestSimLessThan(sim) => {
                let area = put_u8(area, 2);
                sim.encode(area)
            },
        }
    }
}

impl FromBin for AssignCond {
    open spec fn parse(area: Seq<u8>) -> Parsed<AssignCond> {
        match parse_u8(area) {
            Err(e) => Err(e),
            Ok((tag, rest)) => {
                if tag == 1 {
                    Ok((AssignCond::Always, rest))
                } else if tag == 2 {
                    match Double::parse(rest) {
                        Ok((sim, rest)) => Ok((AssignCond::BestSimLessThan(sim), rest)),
                        Err(e) => Err(e),
                    }
                } else {
                    Err(Error::InvalidTag(tag))
                }
            },
        }
    }

    fn decode<'a>(area: &'a [u8]) -> (r: Result<(AssignCond, &'a [u8]), Error>) {
        let (tag, area) = get_u8(area)?;
        if tag == 1 {
            Ok((AssignCond::Always, area))
        } else if tag == 2 {
            let (sim, area) = Double::decode(area)?;
            Ok((AssignCond::BestSimLessThan(sim), area))
        } else {
            Err(Error::InvalidTag(tag))
        }
    }
}

impl ToBin for ClusterChoice {
    open spec fn wire(v: ClusterChoice) -> Seq<u8> {
        match v {
            ClusterChoice::ServerChoice => seq![1u8],
            ClusterChoice::ClientChoice(cluster_id) => seq![2u8] + u64::wire(cluster_id),
        }
    }

    open spec fn fits(v: ClusterChoice) -> bool {
        true
    }

    fn fits_wire(&self) -> (b: bool) {
        true
    }

    fn encode_len(&self) -> (n: usize) {
        proof {
            lemma_u64_le();
        }
        match self {
            ClusterChoice::ServerChoice => 1,
            ClusterChoice::ClientChoice(_) => 9,
        }
    }

    fn encode<'a>(&self, area: &'a mut [u8]) -> (rest: &'a mut [u8]) {
        proof {
            lemma_u64_le();
        }
        match self {
            ClusterChoice::ServerChoice => put_u8(area, 1),
            ClusterChoice::ClientChoice(cluster_id) => {
                let area = put_u8(area, 2);
                put_u64(area, *cluster_id)
            },
        }
    }
}

impl FromBin for ClusterChoice {
    open spec fn parse(area: Seq<u8>) -> Parsed<ClusterChoice> {
        match parse_u8(area) {
            Err(e) => Err(e),
            Ok((tag, rest)) => {
                if tag == 1 {
                    Ok((ClusterChoice::ServerChoice, rest))
                } else if tag == 2 {
                    match parse_u64(rest) {
                        Ok((cluster_id, rest)) => Ok(
                            (ClusterChoice::ClientChoice(cluster_id), rest),
                        ),
                        Err(e) => Err(e),
                    }
                } else {
                    Err(Error::InvalidTag(tag))
                }
            },
        }
    }

    fn decode<'a>(area: &'a [u8]) -> (r: Result<(ClusterChoice, &'a [u8]), Error>) {
        let (tag, area) = get_u8(area)?;
        if tag == 1 {
            Ok((ClusterChoice::ServerChoice, area))
        } else if tag == 2 {
            let (cluster_id, area) = get_u64(area)?;
            Ok((ClusterChoice::ClientChoice(cluster_id), area))
        } else {
            Err(Error::InvalidTag(tag))
        }
    }
}

impl ToBin for ClusterAssign {
    open spec fn wire(v: ClusterAssign) -> Seq<u8> {
        AssignCond::wire(v.cond) + ClusterChoice::wire(v.choice)
    }

    open spec fn fits(v: ClusterAssign) -> bool {
        true
    }

    fn fits_wire(&self) -> (b: bool) {
        true
    }

    fn encode_len(&self) -> (n: usize) {
        self.cond.encode_len() + self.choice.encode_len()
    }

    fn encode<'a>(&self, area: &'a mut [u8]) -> (rest: &'a mut [u8]) {
        let area = self.cond.encode(area);
        self.choice.encode(area)
    }
}

impl FromBin for ClusterAssign {
    open spec fn parse(area: Seq<u8>) -> Parsed<ClusterAssign> {
        match AssignCond::parse(area) {
            Err(e) => Err(e),
            Ok((cond, rest)) => match ClusterChoice::parse(rest) {
                Err(e) => Err(e),
                Ok((choice, rest)) => Ok((ClusterAssign { cond, choice }, rest)),
            },
        }
    }

    fn decode<'a>(area: &'a [u8]) -> (r: Result<(ClusterAssign, &'a [u8]), Error>) {
        let (cond, area) = AssignCond::decode(area)?;
        let (choice, area) = ClusterChoice::decode(area)?;
        Ok((ClusterAssign { cond, choice }, area))
    }
}

impl<UD: ToBin> ToBin for PostAction<UD> {
    open spec fn wire(v: PostActionView<UD::V>) -> Seq<u8> {
        match v {
            PostActionView::NoAction => seq![1u8],
            PostActionView::InsertNew { cond, assign, user_data } => seq![2u8] + InsertCond::wire(
                cond,
            ) + ClusterAssign::wire(assign) + UD::wire(user_data),
        }
    }

    open spec fn fits(v: PostActionView<UD::V>) -> bool {
        match v {
            PostActionView::NoAction => true,
            PostActionView::InsertNew { cond, assign, user_data } => UD::fits(user_data),
        }
    }

    fn fits_wire(&self) -> (b: bool) {
        match self {
            PostAction::NoAction => true,
            PostAction::InsertNew { cond, assign, user_data } => user_data.fits_wire(),
        }
    }

    fn encode_len(&self) -> (n: usize) {
        match self {
            PostAction::NoAction => 1,
            PostAction::InsertNew { cond, assign, user_data } => 1 + cond.encode_len()
                + assign.encode_len() + user_data.encode_len(),
        }
    }

    fn encode<'a>(&self, area: &'a mut [u8]) -> (rest: &'a mut [u8]) {
        match self {
            PostAction::NoAction => put_u8(area, 1),
            PostAction::InsertNew { cond, assign, user_data } => {
                let area = put_u8(area, 2);
                let area = cond.encode(area);
                let area = assign.encode(area);
                user_data.encode(area)
            },
        }
    }
}

impl<UD: FromBin> FromBin for PostAction<UD> {
    open spec fn parse(area: Seq<u8>) -> Parsed<PostActionView<UD::V>> {
        match parse_u8(area) {
            Err(e) => Err(e),
            Ok((tag, rest)) => {
                if tag == 1 {
                    Ok((PostActionView::NoAction, rest))
                } else if tag == 2 {
                    match InsertCond::parse(rest) {
                        Err(e) => Err(e),
                        Ok((cond, rest)) => match ClusterAssign::parse(rest) {
                            Err(e) => Err(e),
                            Ok((assign, rest)) => match UD::parse(rest) {
                                Err(e) => Err(e),
                                Ok((user_data, rest)) => Ok(
                                    (PostActionView::InsertNew { cond, assign, user_data }, rest),
                                ),
                            },
                        },
                    }
                } else {
                    Err(Error::InvalidTag(tag))
                }
            },
        }
    }

    fn decode<'a>(area: &'a [u8]) -> (r: Result<(PostAction<UD>, &'a [u8]), Error>) {
        let (tag, area) = get_u8(area)?;
        if tag == 1 {
            Ok((PostAction::NoAction, area))
        } else if tag == 2 {
            let (cond, area) = InsertCond::decode(area)?;
            let (assign, area) = ClusterAssign::decode(area)?;
            let (user_data, area) = UD::decode(area)?;
            Ok((PostAction::InsertNew { cond, assign, user_data }, area))
        } else {
            Err(Error::InvalidTag(tag))
        }
    }
}

impl<UD: ToBin> ToBin for LookupTask<UD> {
    open spec fn wire(v: LookupTaskView<UD::V>) -> Seq<u8> {
        wire_string(v.text) + LookupType::wire(v.result) + PostAction::<UD>::wire(v.post_action)
    }

    open spec fn fits(v: LookupTaskView<UD::V>) -> bool {
        String::fits(v.text) && PostAction::<UD>::fits(v.post_action)
    }

    fn fits_wire(&self) -> (b: bool) {
        self.text.fits_wire() && self.post_action.fits_wire()
    }

    fn encode_len(&self) -> (n: usize) {
        self.text.encode_len() + self.result.encode_len() + self.post_action.encode_len()
    }

    fn encode<'a>(&self, area: &'a mut [u8]) -> (rest: &'a mut [u8]) {
        let area = self.text.encode(area);
        let area = self.result.encode(area);
        self.post_action.encode(area)
    }
}

impl<UD: FromBin> FromBin for LookupTask<UD> {
    open spec fn parse(area: Seq<u8>) -> Parsed<LookupTaskView<UD::V>> {
        match parse_string(area) {
            Err(e) => Err(e),
            Ok((text, rest)) => match LookupType::parse(rest) {
                Err(e) => Err(e),
                Ok((result, rest)) => match PostAction::<UD>::parse(rest) {
                    Err(e) => Err(e),
                    Ok((post_action, rest)) => Ok(
                        (LookupTaskView { text, result, post_action }, rest),
                    ),
                },
            },
        }
    }

    fn decode<'a>(area: &'a [u8]) -> (r: Result<(LookupTask<UD>, &'a [u8]), Error>) {
        let (text, area) = String::decode(area)?;
        let (result, area) = LookupType::decode(area)?;
        let (post_action, area) = PostAction::decode(area)?;
        Ok((LookupTask { text, result, post_action }, area))
    }
}

impl<UD: ToBin> ToBin for Req<UD> {
    open spec fn wire(v: ReqView<UD::V>) -> Seq<u8> {
        match v {
            ReqView::Init => seq![1u8],
            ReqView::Lookup(workload) => seq![2u8] + Workload::<LookupTask<UD>>::wire(workload),
            ReqView::Terminate => seq![3u8],
        }
    }

    open spec fn fits(v: ReqView<UD::V>) -> bool {
        match v {
            ReqView::Lookup(workload) => Workload::<LookupTask<UD>>::fits(workload),
            _ => true,
        }
    }

    fn fits_wire(&self) -> (b: bool) {
        match self {
            Req::Lookup(workload) => workload.fits_wire(),
            _ => true,
        }
    }

    fn encode_len(&self) -> (n: usize) {
        match self {
            Req::Init => 1,
            Req::Lookup(workload) => 1 + workload.encode_len(),
            Req::Terminate => 1,
        }
    }

    fn encode<'a>(&self, area: &'a mut [u8]) -> (rest: &'a mut [u8]) {
        match self {
            Req::Init => put_u8(area, 1),
            Req::Lookup(workload) => {
                let area = put_u8(area, 2);
                workload.encode(area)
            },
            Req::Terminate => put_u8(area, 3),
        }
    }
}

impl<UD: FromBin> FromBin for Req<UD> {
    open spec fn parse(area: Seq<u8>) -> Parsed<ReqView<UD::V>> {
        match parse_u8(area) {
            Err(e) => Err(e),
            Ok((tag, rest)) => {
                if tag == 1 {
                    Ok((ReqView::Init, rest))
                } else if tag == 2 {
                    match Workload::<LookupTask<UD>>::parse(rest) {
                        Ok((workload, rest)) => Ok((ReqView::Lookup(workload), rest)),
                        Err(e) => Err(e),
                    }
                } else if tag == 3 {
                    Ok((ReqView::Terminate, rest))
                } else {
                    Err(Error::InvalidTag(tag))
                }
            },
        }
    }

    fn decode<'a>(area: &'a [u8]) -> (r: Result<(Req<UD>, &'a [u8]), Error>) {
        let (tag, area) = get_u8(area)?;
        if tag == 1 {
            Ok((Req::Init, area))
        } else if tag == 2 {
            let (workload, area) = Workload::decode(area)?;
            Ok((Req::Lookup(workload), area))
        } else if tag == 3 {
            Ok((Req::Terminate, area))
        } else {
            Err(Error::InvalidTag(tag))
        }
    }
}

impl<UD: ToBin> ToBin for Trans<UD> {
    open spec fn wire(v: TransView<UD::V>) -> Seq<u8> {
        match v {
            TransView::Async(req) => seq![1u8] + Req::<UD>::wire(req),
            TransView::Sync(req) => seq![2u8] + Req::<UD>::wire(req),
        }
    }

    open spec fn fits(v: TransView<UD::V>) -> bool {
        match v {
            TransView::Async(req) => Req::<UD>::fits(req),
            TransView::Sync(req) => Req::<UD>::fits(req),
        }
    }

    fn fits_wire(&self) -> (b: bool) {
        match self {
            Trans::Async(req) => req.fits_wire(),
            Trans::Sync(req) => req.fits_wire(),
        }
    }

    fn encode_len(&self) -> (n: usize) {
        match self {
            Trans::Async(req) => 1 + req.encode_len(),
            Trans::Sync(req) => 1 + req.encode_len(),
        }
    }

    fn encode<'a>(&self, area: &'a mut [u8]) -> (rest: &'a mut [u8]) {
        match self {
            Trans::Async(req) => {
                let area = put_u8(area, 1);
                req.encode(area)
            },
            Trans::Sync(req) => {
                let area = put_u8(area, 2);
                req.encode(area)
            },
        }
    }
}

impl<UD: FromBin> FromBin for Trans<UD> {
    open spec fn parse(area: Seq<u8>) -> Parsed<TransView<UD::V>> {
        match parse_u8(area) {
            Err(e) => Err(e),
            Ok((tag, rest)) => {
                if tag == 1 {
                    match Req::<UD>::parse(rest) {
                        Ok((req, rest)) => Ok((TransView::Async(req), rest)),
                        Err(e) => Err(e),
                    }
                } else if tag == 2 {
                    match Req::<UD>::parse(rest) {
                        Ok((req, rest)) => Ok((TransView::Sync(req), rest)),
                        Err(e) => Err(e),
                    }
                } else {
                    Err(Error::InvalidTag(tag))
                }
            },
        }
    }

    fn decode<'a>(area: &'a [u8]) -> (r: Result<(Trans<UD>, &'a [u8]), Error>) {
        let (tag, area) = get_u8(area)?;
        if tag == 1 {
            let (req, area) = Req::decode(area)?;
            Ok((Trans::Async(req), area))
        } else if tag == 2 {
            let (req, area) = Req::decode(area)?;
            Ok((Trans::Sync(req), area))
        } else {
            Err(Error::InvalidTag(tag))
        }
    }
}

impl<UD: ToBin> ToBin for Match<UD> {
    open spec fn wire(v: MatchView<UD::V>) -> Seq<u8> {
        u64::wire(v.cluster_id) + Double::wire(v.similarity) + UD::wire(v.user_data)
    }

    open spec fn fits(v: MatchView<UD::V>) -> bool {
        UD::fits(v.user_data)
    }

    fn fits_wire(&self) -> (b: bool) {
        self.user_data.fits_wire()
    }

    fn encode_len(&self) -> (n: usize) {
        proof {
            lemma_u64_le();
        }
        16 + self.user_data.encode_len()
    }

    fn encode<'a>(&self, area: &'a mut [u8]) -> (rest: &'a mut [u8]) {
        proof {
            lemma_u64_le();
        }
        let area = put_u64(area, self.cluster_id);
        let area = self.similarity.encode(area);
        self.user_data.encode(area)
    }
}

impl<UD: FromBin> FromBin for Match<UD> {
    open spec fn parse(area: Seq<u8>) -> Parsed<MatchView<UD::V>> {
        match parse_u64(area) {
            Err(e) => Err(e),
            Ok((cluster_id, rest)) => match parse_double(rest) {
                Err(e) => Err(e),
                Ok((similarity, rest)) => match UD::parse(rest) {
                    Err(e) => Err(e),
                    Ok((user_data, rest)) => Ok(
                        (MatchView { cluster_id, similarity, user_data }, rest),
                    ),
                },
            },
        }
    }

    fn decode<'a>(area: &'a [u8]) -> (r: Result<(Match<UD>, &'a [u8]), Error>) {
        let (cluster_id, area) = get_u64(area)?;
        let (similarity, area) = Double::decode(area)?;
        let (user_data, area) = UD::decode(area)?;
        Ok((Match { cluster_id, similarity, user_data }, area))
    }
}

impl<UD: ToBin> ToBin for LookupResult<UD> {
    open spec fn wire(v: LookupResultView<UD::V>) -> Seq<u8> {
        match v {
            LookupResultView::EmptySet => seq![1u8],
            LookupResultView::Best(m) => seq![2u8] + Match::<UD>::wire(m),
            LookupResultView::Neighbours(workload) => seq![3u8] + Workload::<Match<UD>>::wire(
                workload,
            ),
            LookupResultView::Error(message) => seq![4u8] + wire_string(message),
        }
    }

    open spec fn fits(v: LookupResultView<UD::V>) -> bool {
        match v {
            LookupResultView::EmptySet => true,
            LookupResultView::Best(m) => Match::<UD>::fits(m),
            LookupResultView::Neighbours(workload) => Workload::<Match<UD>>::fits(workload),
            LookupResultView::Error(message) => String::fits(message),
        }
    }

    fn fits_wire(&self) -> (b: bool) {
        match self {
            LookupResult::EmptySet => true,
            LookupResult::Best(m) => m.fits_wire(),
            LookupResult::Neighbours(workload) => workload.fits_wire(),
            LookupResult::Error(message) => message.fits_wire(),
        }
    }

    fn encode_len(&self) -> (n: usize) {
        match self {
            LookupResult::EmptySet => 1,
            LookupResult::Best(m) => 1 + m.encode_len(),
            LookupResult::Neighbours(workload) => 1 + workload.encode_len(),
            LookupResult::Error(message) => 1 + message.encode_len(),
        }
    }

    fn encode<'a>(&self, area: &'a mut [u8]) -> (rest: &'a mut [u8]) {
        match self {
            LookupResult::EmptySet => put_u8(area, 1),
            LookupResult::Best(m) => {
                let area = put_u8(area, 2);
                m.encode(area)
            },
            LookupResult::Neighbours(workload) => {
                let area = put_u8(area, 3);
                workload.encode(area)
            },
            LookupResult::Error(message) => {
                let area = put_u8(area, 4);
                message.encode(area)
            },
        }
    }
}

impl<UD: FromBin> FromBin for LookupResult<UD> {
    open spec fn parse(area: Seq<u8>) -> Parsed<LookupResultView<UD::V>> {
        match parse_u8(area) {
            Err(e) => Err(e),
            Ok((tag, rest)) => {
                if tag == 1 {
                    Ok((LookupResultView::EmptySet, rest))
                } else if tag == 2 {
                    match Match::<UD>::parse(rest) {
                        Ok((m, rest)) => Ok((LookupResultView::Best(m), rest)),
                        Err(e) => Err(e),
                    }
                } else if tag == 3 {
                    match Workload::<Match<UD>>::parse(rest) {
                        Ok((workload, rest)) => Ok((LookupResultView::Neighbours(workload), rest)),
                        Err(e) => Err(e),
                    }
                } else if tag == 4 {
                    match parse_string(rest) {
                        Ok((message, rest)) => Ok((LookupResultView::Error(message), rest)),
                        Err(e) => Err(e),
                    }
                } else {
                    Err(Error::InvalidTag(tag))
                }
            },
        }
    }

    fn decode<'a>(area: &'a [u8]) -> (r: Result<(LookupResult<UD>, &'a [u8]), Error>) {
        let (tag, area) = get_u8(area)?;
        if tag == 1 {
            Ok((LookupResult::EmptySet, area))
        } else if tag == 2 {
            let (m, area) = Match::decode(area)?;
            Ok((LookupResult::Best(m), area))
        } else if tag == 3 {
            let (workload, area) = Workload::decode(area)?;
            Ok((LookupResult::Neighbours(workload), area))
        } else if tag == 4 {
            let (message, area) = String::decode(area)?;
            Ok((LookupResult::Error(message), area))
        } else {
            Err(Error::InvalidTag(tag))
        }
    }
}

impl<UD: ToBin> ToBin for Rep<UD> {
    open spec fn wire(v: RepView<UD::V>) -> Seq<u8> {
        match v {
            RepView::InitAck => seq![1u8],
            RepView::Result(workload) => seq![2u8] + Workload::<LookupResult<UD>>::wire(workload),
            RepView::TerminateAck => seq![3u8],
            RepView::Unexpected(req) => seq![4u8] + Req::<UD>::wire(req),
            RepView::TooBusy => seq![5u8],
            RepView::WantCrash => seq![6u8],
        }
    }

    open spec fn fits(v: RepView<UD::V>) -> bool {
        match v {
            RepView::Result(workload) => Workload::<LookupResult<UD>>::fits(workload),
            RepView::Unexpected(req) => Req::<UD>::fits(req),
            _ => true,
        }
    }

    fn fits_wire(&self) -> (b: bool) {
        match self {
            Rep::Result(workload) => workload.fits_wire(),
            Rep::Unexpected(req) => req.fits_wire(),
            _ => true,
        }
    }

    fn encode_len(&self) -> (n: usize) {
        match self {
            Rep::Result(workload) => 1 + workload.encode_len(),
            Rep::Unexpected(req) => 1 + req.encode_len(),
            _ => 1,
        }
    }

    fn encode<'a>(&self, area: &'a mut [u8]) -> (rest: &'a mut [u8]) {
        match self {
            Rep::InitAck => put_u8(area, 1),
            Rep::Result(workload) => {
                let area = put_u8(area, 2);
                workload.encode(area)
            },
            Rep::TerminateAck => put_u8(area, 3),
            Rep::Unexpected(req) => {
                let area = put_u8(area, 4);
                req.encode(area)
            },
            Rep::TooBusy => put_u8(area, 5),
            Rep::WantCrash => put_u8(area, 6),
        }
    }
}

impl<UD: FromBin> FromBin for Rep<UD> {
    open spec fn parse(area: Seq<u8>) -> Parsed<RepView<UD::V>> {
        match parse_u8(area) {
            Err(e) => Err(e),
            Ok((tag, rest)) => {
                if tag == 1 {
                    Ok((RepView::InitAck, rest))
                } else if tag == 2 {
                    match Workload::<LookupResult<UD>>::parse(rest) {
                        Ok((workload, rest)) => Ok((RepView::Result(workload), rest)),
                        Err(e) => Err(e),
                    }
                } else if tag == 3 {
                    Ok((RepView::TerminateAck, rest))
                } else if tag == 4 {
                    match Req::<UD>::parse(rest) {
                        Ok((req, rest)) => Ok((RepView::Unexpected(req), rest)),
                        Err(e) => Err(e),
                    }
                } else if tag == 5 {
                    Ok((RepView::TooBusy, rest))
                } else if tag == 6 {
                    Ok((RepView::WantCrash, rest))
                } else {
                    Err(Error::InvalidTag(tag))
                }
            },
        }
    }

    fn decode<'a>(area: &'a [u8]) -> (r: Result<(Rep<UD>, &'a [u8]), Error>) {
        let (tag, area) = get_u8(area)?;
        if tag == 1 {
            Ok((Rep::InitAck, area))
        } else if tag == 2 {
            let (workload, area) = Workload::decode(area)?;
            Ok((Rep::Result(workload), area))
        } else if tag == 3 {
            Ok((Rep::TerminateAck, area))
        } else if tag == 4 {
            let (req, area) = Req::decode(area)?;
            Ok((Rep::Unexpected(req), area))
        } else if tag == 5 {
            Ok((Rep::TooBusy, area))
        } else if tag == 6 {
            Ok((Rep::WantCrash, area))
        } else {
            Err(Error::InvalidTag(tag))
        }
    }
}

} // verus!

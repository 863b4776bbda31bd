use std::collections::HashMap;
use vstd::prelude::*;

use crate::custombinds::evaluate::{
    evaluate, lemma_evaluate_congruent, outcome_model, spec_evaluate, ErrorModel, EvaluationContext,
    EvaluationError,
};
use crate::custombinds::parser::{parser, spec_parser, Expression};
use crate::error::RoError;
use crate::collections::{contains_role, dedup};
use crate::id::{RoleId, UserId};
use crate::models::bind::render;
use crate::models::bind::{Assetbind, Custombind, Groupbind, Rankbind, Template};
use crate::models::deny_list::{DenyList, DenyListData};
use crate::models::discord::{CachedGuild, CachedMember, CachedUser};
use crate::models::guild::{BypassRole, BypassRoleKind, PartialRoGuild};
use crate::models::user::RoUser;
use crate::roblox::id::UserId as RobloxUserId;
use crate::roblox::user::PartialUser;
use crate::custom::positions;
use crate::text::{decimal, decimal_string, str_eq};
use vstd::utf8::encode_utf8;

verus! {

pub enum UpdateUserError {
    DenyList((UserId, DenyList)),
    InvalidNickname(String),
    Generic(RoError),
    CustombindParsing { id: u32, err: String },
    CustombindEvaluation { id: u32, err: EvaluationError },
    CustomDenylistParsing { id: u32, err: String },
    CustomDenylistEvaluation { id: u32, err: String },
    BannedAccount(RobloxUserId),
}

impl From<RoError> for UpdateUserError {
    fn from(err: RoError) -> (r: Self) {
        UpdateUserError::Generic(err)
    }
}

impl vstd::std_specs::convert::FromSpecImpl<RoError> for UpdateUserError {
    open spec fn obeys_from_spec() -> bool {
        true
    }

    open spec fn from_spec(err: RoError) -> Self {
        UpdateUserError::Generic(err)
    }
}

/// What a member is judged against: their Discord roles, their rank in each
/// Roblox group they are in, and their Roblox username.
pub struct Member {
    pub roles: Seq<RoleId>,
    pub ranks: Map<u64, u32>,
    pub username: Seq<char>,
}

/// What a custom code says of a member.
pub enum Verdict {
    ParseFailed,
    EvalFailed(ErrorModel),
    Holds(bool),
}

/// The verdict of the custom code `code` on `member`: the code must parse,
/// and evaluate to a true boolean or a number other than 0.
pub open spec fn verdict(code: Seq<char>, member: Member) -> Verdict {
    match spec_parser(code) {
        None => Verdict::ParseFailed,
        Some(m) => {
            let (e, c) = choose|e: Expression, c: EvaluationContext|
                #![trigger e.view(), c.roles.view()]
                e@ == m && c.roles@ == member.roles && c.ranks@ == member.ranks && c.username@
                    == member.username;
            match outcome_model(spec_evaluate(e, c)) {
                Err(x) => Verdict::EvalFailed(x),
                Ok(v) => Verdict::Holds(v.truth()),
            }
        },
    }
}

/// Why a custom code could not be judged.
pub enum CodeFailure {
    Parse(crate::custombinds::parser::ParseError),
    Eval(EvaluationError),
}

/// Parses and evaluates a custom code against the member in `context`.
pub fn judge(code: &str, context: &EvaluationContext) -> (r: Result<bool, CodeFailure>)
    ensures
        match verdict(code@, Member { roles: context.roles@, ranks: context.ranks@, username: context.username@ }) {
            Verdict::ParseFailed => r matches Err(CodeFailure::Parse(_)),
            Verdict::EvalFailed(x) => r matches Err(CodeFailure::Eval(e)) && e.model() == x,
            Verdict::Holds(b) => r == Ok::<bool, CodeFailure>(b),
        },
{
    let ghost member = Member { roles: context.roles@, ranks: context.ranks@, username: context.username@ };
    match parser(code) {
        Err(err) => Err(CodeFailure::Parse(err)),
        Ok(expr) => {
            let r = evaluate(&expr, context);
            proof {
                let m = spec_parser(code@)->0;
                assert(expr@ == m && context.roles@ == member.roles && context.ranks@ == member.ranks
                    && context.username@ == member.username);
                let (e, c) = choose|e: Expression, c: EvaluationContext|
                    #![trigger e.view(), c.roles.view()]
                    e@ == m && c.roles@ == member.roles && c.ranks@ == member.ranks && c.username@
                        == member.username;
                lemma_evaluate_congruent(expr, e, *context, c);
            }
            match r {
                Ok(v) => Ok(v.is_truthy()),
                Err(e) => Err(CodeFailure::Eval(e)),
            }
        },
    }
}

/// Whether a deny list applies to the member whose Roblox account is
/// `roblox_id`.
pub open spec fn deny_verdict(d: DenyList, roblox_id: RobloxUserId, member: Member) -> Verdict {
    match d.data {
        DenyListData::User(u) => Verdict::Holds(u == roblox_id),
        DenyListData::Group(g) => Verdict::Holds(member.ranks.contains_key(g.0)),
        DenyListData::Custom(c) => verdict(c@, member),
    }
}

/// Going through lists in order: the first whose code cannot be judged, or
/// the positions of those that apply.
pub enum Scan {
    Failed(int, Verdict),
    Found(Seq<int>),
}

pub open spec fn deny_scan(lists: Seq<DenyList>, roblox_id: RobloxUserId, member: Member, k: int) -> Scan
    decreases k,
{
    if k <= 0 {
        Scan::Found(Seq::empty())
    } else {
        match deny_scan(lists, roblox_id, member, k - 1) {
            Scan::Failed(i, v) => Scan::Failed(i, v),
            Scan::Found(s) => match deny_verdict(lists[k - 1], roblox_id, member) {
                Verdict::Holds(true) => Scan::Found(s.push(k - 1)),
                Verdict::Holds(false) => Scan::Found(s),
                v => Scan::Failed(k - 1, v),
            },
        }
    }
}

/// Among the lists at the positions `found`, the last of those with the most
/// severe action.
pub open spec fn strongest(lists: Seq<DenyList>, found: Seq<int>) -> Option<int>
    decreases found.len(),
{
    if found.len() == 0 {
        None
    } else {
        let last = found.last();
        match strongest(lists, found.drop_last()) {
            None => Some(last),
            Some(b) => if lists[last].action_type.rank() >= lists[b].action_type.rank() {
                Some(last)
            } else {
                Some(b)
            },
        }
    }
}

/// A bind that the member meets: its priority, its nickname template and its
/// roles.
pub type Hit = (i32, Template, Seq<RoleId>);

pub open spec fn rank_matches(b: Rankbind, ranks: Map<u64, u32>) -> bool {
    if ranks.contains_key(b.group_id.0) {
        ranks[b.group_id.0] == b.group_rank_id
    } else {
        b.group_rank_id == 0
    }
}

pub open spec fn rank_hits(binds: Seq<Rankbind>, ranks: Map<u64, u32>) -> Seq<Hit>
    decreases binds.len(),
{
    if binds.len() == 0 {
        Seq::empty()
    } else {
        let b = binds.last();
        let rest = rank_hits(binds.drop_last(), ranks);
        if rank_matches(b, ranks) {
            rest.push((b.priority, b.template, b.discord_roles@))
        } else {
            rest
        }
    }
}

pub open spec fn group_hits(binds: Seq<Groupbind>, ranks: Map<u64, u32>) -> Seq<Hit>
    decreases binds.len(),
{
    if binds.len() == 0 {
        Seq::empty()
    } else {
        let b = binds.last();
        let rest = group_hits(binds.drop_last(), ranks);
        if ranks.contains_key(b.group_id.0) {
            rest.push((b.priority, b.template, b.discord_roles@))
        } else {
            rest
        }
    }
}

pub open spec fn asset_hits(binds: Seq<Assetbind>, inventory: Seq<Seq<char>>) -> Seq<Hit>
    decreases binds.len(),
{
    if binds.len() == 0 {
        Seq::empty()
    } else {
        let b = binds.last();
        let rest = asset_hits(binds.drop_last(), inventory);
        if inventory.contains(decimal(b.asset_id.0 as nat)) {
            rest.push((b.priority, b.template, b.discord_roles@))
        } else {
            rest
        }
    }
}

pub enum CustomScan {
    Failed(int, Verdict),
    Hits(Seq<Hit>),
}

pub open spec fn custom_scan(binds: Seq<Custombind>, member: Member, k: int) -> CustomScan
    decreases k,
{
    if k <= 0 {
        CustomScan::Hits(Seq::empty())
    } else {
        match custom_scan(binds, member, k - 1) {
            CustomScan::Failed(i, v) => CustomScan::Failed(i, v),
            CustomScan::Hits(s) => {
                let b = binds[k - 1];
                match verdict(b.code@, member) {
                    Verdict::Holds(true) => CustomScan::Hits(s.push((b.priority, b.template, b.discord_roles@))),
                    Verdict::Holds(false) => CustomScan::Hits(s),
                    v => CustomScan::Failed(k - 1, v),
                }
            },
        }
    }
}

/// The bind that decides the nickname: the first of those with the highest
/// priority.
pub open spec fn pick(hits: Seq<Hit>) -> Option<Hit>
    decreases hits.len(),
{
    if hits.len() == 0 {
        None
    } else {
        let last = hits.last();
        match pick(hits.drop_last()) {
            None => Some(last),
            Some(h) => if h.0 < last.0 {
                Some(last)
            } else {
                Some(h)
            },
        }
    }
}

/// The roles of the binds met, in order.
pub open spec fn hit_roles(hits: Seq<Hit>) -> Seq<RoleId>
    decreases hits.len(),
{
    if hits.len() == 0 {
        Seq::empty()
    } else {
        hit_roles(hits.drop_last()) + hits.last().2
    }
}

/// Whether one of the member's roles bypasses the update in the way `kind`.
pub open spec fn bypasses(bypass: Seq<BypassRole>, member_roles: Seq<RoleId>, kind: BypassRoleKind) -> bool {
    exists|i: int|
        0 <= i < bypass.len() && #[trigger] bypass[i].kind == kind && member_roles.contains(bypass[i].role_id)
}

/// The verified roles that the guild has.
pub open spec fn kept_verified(verified: Seq<RoleId>, server_roles: Seq<RoleId>) -> Seq<RoleId> {
    verified.filter(|r: RoleId| server_roles.contains(r))
}

/// The roles of `all` to give: the guild has them, the member should have
/// them, and does not.
pub open spec fn added_of(all: Seq<RoleId>, server_roles: Seq<RoleId>, wanted: Seq<RoleId>, member_roles: Seq<RoleId>) -> Seq<RoleId> {
    all.filter(|r: RoleId| server_roles.contains(r) && wanted.contains(r) && !member_roles.contains(r))
}

/// The roles of `all` to take away: the guild has them, the member should
/// not have them but does, and they are not sticky.
pub open spec fn removed_of(
    all: Seq<RoleId>,
    server_roles: Seq<RoleId>,
    wanted: Seq<RoleId>,
    member_roles: Seq<RoleId>,
    sticky: Seq<RoleId>,
) -> Seq<RoleId> {
    all.filter(
        |r: RoleId| server_roles.contains(r) && !wanted.contains(r) && member_roles.contains(r) && !sticky.contains(r),
    )
}

/// The member's roles after the update, each once, as ids.
pub open spec fn new_roles_of(member_roles: Seq<RoleId>, added: Seq<RoleId>, removed: Seq<RoleId>) -> Seq<u64> {
    dedup((member_roles + added).filter(|r: RoleId| !removed.contains(r))).map_values(|r: RoleId| r.0)
}

/// The member as the guild's binds see them.
pub struct UpdateUser<'u> {
    pub discord_member: &'u CachedMember,
    pub discord_user: &'u CachedUser,
    pub user: &'u RoUser,
    pub server: &'u CachedGuild,
    pub guild: &'u PartialRoGuild,
    /// Every role that some bind of the guild gives.
    pub all_roles: &'u [RoleId],
}

/// The change to make to the member.
pub struct MemberUpdate {
    pub added_roles: Vec<RoleId>,
    pub removed_roles: Vec<RoleId>,
    /// The nickname the member should have.
    pub nickname: String,
    /// The member's new roles, when they change and no role of the member
    /// bypasses role updates.
    pub roles: Option<Vec<u64>>,
    /// The nickname to set, when it changes and no role of the member
    /// bypasses nickname updates.
    pub nick: Option<String>,
}

pub enum UpdateErrorModel {
    DenyList(UserId, DenyList),
    InvalidNickname(Seq<char>),
    CustombindParsing(u32, Seq<char>),
    CustombindEvaluation(u32, ErrorModel),
    CustomDenylistParsing(u32, Seq<char>),
    CustomDenylistEvaluation(u32, Seq<char>),
    BannedAccount(RobloxUserId),
    /// An error of a service, by its kind and source.
    Generic(crate::error::ErrorKind, Option<Box<dyn crate::error::ErrorSource>>),
}

impl UpdateUserError {
    pub open spec fn model(self) -> UpdateErrorModel {
        match self {
            UpdateUserError::DenyList((id, d)) => UpdateErrorModel::DenyList(id, d),
            UpdateUserError::InvalidNickname(n) => UpdateErrorModel::InvalidNickname(n@),
            UpdateUserError::CustombindParsing { id, err } => UpdateErrorModel::CustombindParsing(id, err@),
            UpdateUserError::CustombindEvaluation { id, err } => UpdateErrorModel::CustombindEvaluation(id, err.model()),
            UpdateUserError::CustomDenylistParsing { id, err } => UpdateErrorModel::CustomDenylistParsing(id, err@),
            UpdateUserError::CustomDenylistEvaluation { id, err } => UpdateErrorModel::CustomDenylistEvaluation(id, err@),
            UpdateUserError::BannedAccount(id) => UpdateErrorModel::BannedAccount(id),
            UpdateUserError::Generic(e) => UpdateErrorModel::Generic(e.spec_kind(), e.spec_source()),
        }
    }
}

/// The message of a code that does not parse.
pub open spec fn parse_failure_text() -> Seq<char> {
    "the code is not a valid custom bind expression"@
}

/// The error for a custom deny list whose code cannot be judged.
pub open spec fn deny_failure(id: u32, v: Verdict) -> UpdateErrorModel {
    match v {
        Verdict::EvalFailed(x) => UpdateErrorModel::CustomDenylistEvaluation(id, x.text()),
        _ => UpdateErrorModel::CustomDenylistParsing(id, parse_failure_text()),
    }
}

/// The error for a custom bind whose code cannot be judged.
pub open spec fn bind_failure(id: u32, v: Verdict) -> UpdateErrorModel {
    match v {
        Verdict::EvalFailed(x) => UpdateErrorModel::CustombindEvaluation(id, x),
        _ => UpdateErrorModel::CustombindParsing(id, parse_failure_text()),
    }
}

/// The outcome of the update decision: an error, or the roles to add and to
/// remove, the nickname, the roles to set and the nickname to set.
pub enum UpdatePlan {
    Refused(UpdateErrorModel),
    Change(Seq<RoleId>, Seq<RoleId>, Seq<char>, Option<Seq<u64>>, Option<Seq<char>>),
}

impl<'u> UpdateUser<'u> {
    /// The Roblox account the member is judged by: the one linked for the
    /// guild, else the user's default account.
    pub open spec fn account(&self) -> RobloxUserId {
        crate::custom::execute::account_in(*self.user, self.guild.guild_id)
    }

    /// The nickname the member has now: their guild nickname, else their
    /// username.
    pub open spec fn current_nickname(&self) -> Seq<char> {
        match self.discord_member.nickname {
            Some(n) => n@,
            None => self.discord_user.username@,
        }
    }

    /// The template used when no bind decides the nickname.
    pub open spec fn default_template_text(&self) -> Seq<char> {
        match self.guild.default_template {
            Some(t) => t.0@,
            None => "{roblox-username}"@,
        }
    }

    /// The update once the member is known to meet the binds `hits`.
    pub open spec fn change_for(&self, hits: Seq<Hit>, roblox_user: PartialUser) -> UpdatePlan {
        let wanted = kept_verified(self.guild.verified_roles@, self.server.roles@) + hit_roles(hits);
        let added = added_of(self.all_roles@, self.server.roles@, wanted, self.discord_member.roles@);
        let removed = removed_of(
            self.all_roles@,
            self.server.roles@,
            wanted,
            self.discord_member.roles@,
            self.guild.sticky_roles@,
        );
        let template = match pick(hits) {
            Some(h) => h.1.0@,
            None => self.default_template_text(),
        };
        let nickname = render(template, 0, roblox_user, self.user.user_id, self.discord_user.username@);
        let roles = if !bypasses(self.guild.bypass_roles@, self.discord_member.roles@, BypassRoleKind::Roles) && (
        added.len() > 0 || removed.len() > 0) {
            Some(new_roles_of(self.discord_member.roles@, added, removed))
        } else {
            None
        };
        if !bypasses(self.guild.bypass_roles@, self.discord_member.roles@, BypassRoleKind::Nickname)
            && self.current_nickname() != nickname {
            if (encode_utf8(nickname).len() as usize) > 32 || nickname.len() == 0 {
                UpdatePlan::Refused(UpdateErrorModel::InvalidNickname(nickname))
            } else {
                UpdatePlan::Change(added, removed, nickname, roles, Some(nickname))
            }
        } else {
            UpdatePlan::Change(added, removed, nickname, roles, None)
        }
    }

    /// The update decision for the member, whose Roblox ranks are `ranks`,
    /// whose Roblox account is `roblox_user`, and who owns the inventory items
    /// `inventory` (ids in decimal).
    pub open spec fn plan(&self, ranks: Map<u64, u32>, roblox_user: PartialUser, inventory: Seq<Seq<char>>) -> UpdatePlan {
        let member = Member { roles: self.discord_member.roles@, ranks, username: roblox_user.name@ };
        let lists = self.guild.deny_lists@;
        match deny_scan(lists, roblox_user.id, member, lists.len() as int) {
            Scan::Failed(i, v) => UpdatePlan::Refused(deny_failure(lists[i].id, v)),
            Scan::Found(found) => match strongest(lists, found) {
                Some(i) => UpdatePlan::Refused(UpdateErrorModel::DenyList(self.discord_member.id, lists[i])),
                None => {
                    let customs = self.guild.custombinds@;
                    match custom_scan(customs, member, customs.len() as int) {
                        CustomScan::Failed(i, v) => UpdatePlan::Refused(bind_failure(customs[i].custom_bind_id, v)),
                        CustomScan::Hits(custom) => self.change_for(
                            rank_hits(self.guild.rankbinds@, ranks) + group_hits(self.guild.groupbinds@, ranks)
                                + custom + asset_hits(self.guild.assetbinds@, inventory),
                            roblox_user,
                        ),
                    }
                },
            },
        }
    }
}

/// A member update as plain values.
pub open spec fn plan_of(r: Result<MemberUpdate, UpdateUserError>) -> UpdatePlan {
    match r {
        Err(e) => UpdatePlan::Refused(e.model()),
        Ok(u) => UpdatePlan::Change(
            u.added_roles@,
            u.removed_roles@,
            u.nickname@,
            match u.roles {
                Some(v) => Some(v@),
                None => None,
            },
            match u.nick {
                Some(n) => Some(n@),
                None => None,
            },
        ),
    }
}

/// Whether a failure to judge a code is the one `v` describes.
pub open spec fn failure_fits(f: CodeFailure, v: Verdict) -> bool {
    match v {
        Verdict::ParseFailed => f is Parse,
        Verdict::EvalFailed(x) => f matches CodeFailure::Eval(e) && e.model() == x,
        Verdict::Holds(_) => false,
    }
}

pub open spec fn member_of(ctx: EvaluationContext) -> Member {
    Member { roles: ctx.roles@, ranks: ctx.ranks@, username: ctx.username@ }
}

proof fn lemma_deny_scan_settled(lists: Seq<DenyList>, roblox_id: RobloxUserId, member: Member, j: int, k: int)
    requires
        0 <= j <= k,
        deny_scan(lists, roblox_id, member, j) is Failed,
    ensures
        deny_scan(lists, roblox_id, member, k) == deny_scan(lists, roblox_id, member, j),
    decreases k - j,
{
    if k > j {
        lemma_deny_scan_settled(lists, roblox_id, member, j, k - 1);
    }
}

proof fn lemma_custom_scan_settled(binds: Seq<Custombind>, member: Member, j: int, k: int)
    requires
        0 <= j <= k,
        custom_scan(binds, member, j) is Failed,
    ensures
        custom_scan(binds, member, k) == custom_scan(binds, member, j),
    decreases k - j,
{
    if k > j {
        lemma_custom_scan_settled(binds, member, j, k - 1);
    }
}

/// The positions of the deny lists that apply to the member, or the first
/// whose code cannot be judged.
fn scan_deny_lists(lists: &[DenyList], roblox_id: RobloxUserId, ctx: &EvaluationContext) -> (r: Result<
    Vec<usize>,
    (usize, CodeFailure),
>)
    ensures
        match deny_scan(lists@, roblox_id, member_of(*ctx), lists@.len() as int) {
            Scan::Failed(i, v) => r matches Err((j, f)) && j == i && failure_fits(f, v),
            Scan::Found(found) => r matches Ok(v) && positions(v@) == found,
        },
        r matches Err((j, _)) ==> j < lists@.len(),
        r matches Ok(v) ==> forall|k: int| 0 <= k < v@.len() ==> v@[k] < lists@.len(),
{
    broadcast use vstd::std_specs::hash::group_hash_axioms;

    let ghost member = member_of(*ctx);
    let mut found: Vec<usize> = Vec::new();
    assert(positions(found@) =~= Seq::<int>::empty());
    let mut i: usize = 0;
    while i < lists.len()
        invariant
            i <= lists@.len(),
            member == member_of(*ctx),
            deny_scan(lists@, roblox_id, member, i as int) == Scan::Found(positions(found@)),
            forall|k: int| 0 <= k < found@.len() ==> found@[k] < i,
        decreases lists@.len() - i,
    {
        let applies = match &lists[i].data {
            DenyListData::User(u) => *u == roblox_id,
            DenyListData::Group(g) => ctx.ranks.contains_key(&g.0),
            DenyListData::Custom(code) => match judge(code.as_str(), ctx) {
                Ok(b) => b,
                Err(f) => {
                    proof {
                        lemma_deny_scan_settled(lists@, roblox_id, member, i + 1, lists@.len() as int);
                    }
                    return Err((i, f));
                },
            },
        };
        if applies {
            let ghost before = found@;
            found.push(i);
            assert(positions(found@) =~= positions(before).push(i as int));
        }
        i = i + 1;
    }
    Ok(found)
}

/// Among the deny lists at the positions `found`, the last of those with the
/// most severe action.
fn strongest_list(lists: &[DenyList], found: &Vec<usize>) -> (r: Option<usize>)
    requires
        forall|k: int| 0 <= k < found@.len() ==> found@[k] < lists@.len(),
    ensures
        match strongest(lists@, positions(found@)) {
            Some(i) => r == Some(i as usize) && 0 <= i < lists@.len(),
            None => r is None,
        },
{
    let mut best: Option<usize> = None;
    let mut k: usize = 0;
    while k < found.len()
        invariant
            k <= found@.len(),
            forall|j: int| 0 <= j < found@.len() ==> found@[j] < lists@.len(),
            match strongest(lists@, positions(found@.take(k as int))) {
                Some(i) => best == Some(i as usize) && 0 <= i < lists@.len(),
                None => best is None,
            },
        decreases found@.len() - k,
    {
        assert(positions(found@.take(k + 1)).drop_last() =~= positions(found@.take(k as int)));
        let i = found[k];
        match best {
            None => {
                best = Some(i);
            },
            Some(b) => {
                if lists[i].action_type.severity() >= lists[b].action_type.severity() {
                    best = Some(i);
                }
            },
        }
        k = k + 1;
    }
    assert(found@.take(k as int) =~= found@);
    best
}

/// The positions of the custom binds the member meets, or the first whose
/// code cannot be judged.
fn scan_custombinds(binds: &[Custombind], ctx: &EvaluationContext) -> (r: Result<Vec<usize>, (usize, CodeFailure)>)
    ensures
        match custom_scan(binds@, member_of(*ctx), binds@.len() as int) {
            CustomScan::Failed(i, v) => r matches Err((j, f)) && j == i && failure_fits(f, v),
            CustomScan::Hits(hits) => r matches Ok(v) && v@.len() == hits.len() && forall|k: int|
                0 <= k < hits.len() ==> #[trigger] v@[k] < binds@.len() && hits[k] == (
                    binds@[v@[k] as int].priority,
                    binds@[v@[k] as int].template,
                    binds@[v@[k] as int].discord_roles@,
                ),
        },
        r matches Err((j, _)) ==> j < binds@.len(),
{
    let ghost member = member_of(*ctx);
    let mut found: Vec<usize> = Vec::new();
    let mut i: usize = 0;
    while i < binds.len()
        invariant
            i <= binds@.len(),
            member == member_of(*ctx),
            custom_scan(binds@, member, i as int) matches CustomScan::Hits(hits) && found@.len() == hits.len()
                && forall|k: int|
                0 <= k < hits.len() ==> #[trigger] found@[k] < i && hits[k] == (
                    binds@[found@[k] as int].priority,
                    binds@[found@[k] as int].template,
                    binds@[found@[k] as int].discord_roles@,
                ),
        decreases binds@.len() - i,
    {
        match judge(binds[i].code.as_str(), ctx) {
            Ok(true) => {
                found.push(i);
            },
            Ok(false) => {},
            Err(f) => {
                proof {
                    lemma_custom_scan_settled(binds@, member, i + 1, binds@.len() as int);
                }
                return Err((i, f));
            },
        }
        i = i + 1;
    }
    Ok(found)
}

/// The nickname bind chosen so far is the one `pick` chooses.
pub open spec fn best_fits(best: Option<(i32, Template)>, chosen: Option<Hit>) -> bool {
    match (best, chosen) {
        (None, None) => true,
        (Some(b), Some(h)) => b.0 == h.0 && b.1 == h.1,
        _ => false,
    }
}

/// Records a bind the member meets: its roles are to be given, and it
/// decides the nickname if its priority beats the best so far.
fn record_hit(
    roles: &mut Vec<RoleId>,
    best: &mut Option<(i32, Template)>,
    priority: i32,
    template: &Template,
    bind_roles: &[RoleId],
    Ghost(prefix): Ghost<Seq<RoleId>>,
    Ghost(acc): Ghost<Seq<Hit>>,
)
    requires
        old(roles)@ == prefix + hit_roles(acc),
        best_fits(*old(best), pick(acc)),
    ensures
        final(roles)@ == prefix + hit_roles(acc.push((priority, *template, bind_roles@))),
        best_fits(*final(best), pick(acc.push((priority, *template, bind_roles@)))),
{
    let ghost h: Hit = (priority, *template, bind_roles@);
    assert(acc.push(h).drop_last() =~= acc);
    let replace = match best {
        None => true,
        Some(b) => b.0 < priority,
    };
    if replace {
        *best = Some((priority, template.clone()));
    }
    let mut k: usize = 0;
    let ghost start = roles@;
    while k < bind_roles.len()
        invariant
            k <= bind_roles@.len(),
            roles@ == start + bind_roles@.take(k as int),
        decreases bind_roles@.len() - k,
    {
        roles.push(bind_roles[k]);
        assert(start + bind_roles@.take(k + 1) =~= (start + bind_roles@.take(k as int)).push(bind_roles@[k as int]));
        k = k + 1;
    }
    assert(bind_roles@.take(k as int) =~= bind_roles@);
    assert(prefix + hit_roles(acc.push(h)) =~= prefix + hit_roles(acc) + bind_roles@);
}

fn record_rank_hits(
    binds: &[Rankbind],
    ranks: &HashMap<u64, u32>,
    roles: &mut Vec<RoleId>,
    best: &mut Option<(i32, Template)>,
    Ghost(prefix): Ghost<Seq<RoleId>>,
    Ghost(acc): Ghost<Seq<Hit>>,
)
    requires
        old(roles)@ == prefix + hit_roles(acc),
        best_fits(*old(best), pick(acc)),
    ensures
        final(roles)@ == prefix + hit_roles(acc + rank_hits(binds@, ranks@)),
        best_fits(*final(best), pick(acc + rank_hits(binds@, ranks@))),
{
    broadcast use vstd::std_specs::hash::group_hash_axioms;

    let mut i: usize = 0;
    assert(acc + rank_hits(binds@.take(0), ranks@) =~= acc);
    while i < binds.len()
        invariant
            i <= binds@.len(),
            roles@ == prefix + hit_roles(acc + rank_hits(binds@.take(i as int), ranks@)),
            best_fits(*best, pick(acc + rank_hits(binds@.take(i as int), ranks@))),
        decreases binds@.len() - i,
    {
        let ghost done = acc + rank_hits(binds@.take(i as int), ranks@);
        assert(binds@.take(i + 1).drop_last() =~= binds@.take(i as int));
        assert(binds@.take(i + 1).last() == binds@[i as int]);
        let b = &binds[i];
        if match ranks.get(&b.group_id.0) {
            Some(rank) => *rank == b.group_rank_id,
            None => b.group_rank_id == 0,
        } {
            record_hit(roles, best, b.priority, &b.template, b.discord_roles.as_slice(), Ghost(prefix), Ghost(done));
            assert(acc + rank_hits(binds@.take(i + 1), ranks@) =~= done.push((b.priority, b.template, b.discord_roles@)));
        } else {
            assert(acc + rank_hits(binds@.take(i + 1), ranks@) =~= done);
        }
        i = i + 1;
    }
    assert(binds@.take(i as int) =~= binds@);
}

fn record_group_hits(
    binds: &[Groupbind],
    ranks: &HashMap<u64, u32>,
    roles: &mut Vec<RoleId>,
    best: &mut Option<(i32, Template)>,
    Ghost(prefix): Ghost<Seq<RoleId>>,
    Ghost(acc): Ghost<Seq<Hit>>,
)
    requires
        old(roles)@ == prefix + hit_roles(acc),
        best_fits(*old(best), pick(acc)),
    ensures
        final(roles)@ == prefix + hit_roles(acc + group_hits(binds@, ranks@)),
        best_fits(*final(best), pick(acc + group_hits(binds@, ranks@))),
{
    broadcast use vstd::std_specs::hash::group_hash_axioms;

    let mut i: usize = 0;
    assert(acc + group_hits(binds@.take(0), ranks@) =~= acc);
    while i < binds.len()
        invariant
            i <= binds@.len(),
            roles@ == prefix + hit_roles(acc + group_hits(binds@.take(i as int), ranks@)),
            best_fits(*best, pick(acc + group_hits(binds@.take(i as int), ranks@))),
        decreases binds@.len() - i,
    {
        let ghost done = acc + group_hits(binds@.take(i as int), ranks@);
        assert(binds@.take(i + 1).drop_last() =~= binds@.take(i as int));
        assert(binds@.take(i + 1).last() == binds@[i as int]);
        let b = &binds[i];
        if ranks.contains_key(&b.group_id.0) {
            record_hit(roles, best, b.priority, &b.template, b.discord_roles.as_slice(), Ghost(prefix), Ghost(done));
            assert(acc + group_hits(binds@.take(i + 1), ranks@) =~= done.push((b.priority, b.template, b.discord_roles@)));
        } else {
            assert(acc + group_hits(binds@.take(i + 1), ranks@) =~= done);
        }
        i = i + 1;
    }
    assert(binds@.take(i as int) =~= binds@);
}

fn record_asset_hits(
    binds: &[Assetbind],
    inventory: &Vec<String>,
    roles: &mut Vec<RoleId>,
    best: &mut Option<(i32, Template)>,
    Ghost(prefix): Ghost<Seq<RoleId>>,
    Ghost(acc): Ghost<Seq<Hit>>,
)
    requires
        old(roles)@ == prefix + hit_roles(acc),
        best_fits(*old(best), pick(acc)),
    ensures
        final(roles)@ == prefix + hit_roles(acc + asset_hits(binds@, crate::text::texts(inventory@))),
        best_fits(*final(best), pick(acc + asset_hits(binds@, crate::text::texts(inventory@)))),
{
    
    let mut i: usize = 0;
    assert(acc + asset_hits(binds@.take(0), crate::text::texts(inventory@)) =~= acc);
    while i < binds.len()
        invariant
            i <= binds@.len(),
            roles@ == prefix + hit_roles(acc + asset_hits(binds@.take(i as int), crate::text::texts(inventory@))),
            best_fits(*best, pick(acc + asset_hits(binds@.take(i as int), crate::text::texts(inventory@)))),
        decreases binds@.len() - i,
    {
        let ghost done = acc + asset_hits(binds@.take(i as int), crate::text::texts(inventory@));
        assert(binds@.take(i + 1).drop_last() =~= binds@.take(i as int));
        assert(binds@.take(i + 1).last() == binds@[i as int]);
        let b = &binds[i];
        if owns_item(inventory, b.asset_id.0) {
            record_hit(roles, best, b.priority, &b.template, b.discord_roles.as_slice(), Ghost(prefix), Ghost(done));
            assert(acc + asset_hits(binds@.take(i + 1), crate::text::texts(inventory@)) =~= done.push((b.priority, b.template, b.discord_roles@)));
        } else {
            assert(acc + asset_hits(binds@.take(i + 1), crate::text::texts(inventory@)) =~= done);
        }
        i = i + 1;
    }
    assert(binds@.take(i as int) =~= binds@);
}

/// Whether the inventory holds the item with the id `id`.
fn owns_item(inventory: &Vec<String>, id: u64) -> (r: bool)
    ensures
        r == crate::text::texts(inventory@).contains(decimal(id as nat)),
{
    let text = decimal_string(id);
    let mut i: usize = 0;
    while i < inventory.len()
        invariant
            i <= inventory@.len(),
            text@ == decimal(id as nat),
            forall|j: int| 0 <= j < i ==> inventory@[j]@ != text@,
        decreases inventory@.len() - i,
    {
        if str_eq(inventory[i].as_str(), text.as_str()) {
            assert(crate::text::texts(inventory@)[i as int] == text@);
            return true;
        }
        i = i + 1;
    }
    assert(!crate::text::texts(inventory@).contains(text@)) by {
        if crate::text::texts(inventory@).contains(text@) {
            let j = choose|j: int| 0 <= j < inventory@.len() && crate::text::texts(inventory@)[j] == text@;
            assert(inventory@[j]@ == text@);
        }
    }
    false
}

/// Records the custom binds at the positions `found`.
fn record_custom_hits(
    binds: &[Custombind],
    found: &Vec<usize>,
    Ghost(hits): Ghost<Seq<Hit>>,
    roles: &mut Vec<RoleId>,
    best: &mut Option<(i32, Template)>,
    Ghost(prefix): Ghost<Seq<RoleId>>,
    Ghost(acc): Ghost<Seq<Hit>>,
)
    requires
        old(roles)@ == prefix + hit_roles(acc),
        best_fits(*old(best), pick(acc)),
        found@.len() == hits.len(),
        forall|k: int|
            0 <= k < hits.len() ==> #[trigger] found@[k] < binds@.len() && hits[k] == (
                binds@[found@[k] as int].priority,
                binds@[found@[k] as int].template,
                binds@[found@[k] as int].discord_roles@,
            ),
    ensures
        final(roles)@ == prefix + hit_roles(acc + hits),
        best_fits(*final(best), pick(acc + hits)),
{
    let mut k: usize = 0;
    assert(acc + hits.take(0) =~= acc);
    while k < found.len()
        invariant
            k <= found@.len(),
            found@.len() == hits.len(),
            forall|j: int|
                0 <= j < hits.len() ==> #[trigger] found@[j] < binds@.len() && hits[j] == (
                    binds@[found@[j] as int].priority,
                    binds@[found@[j] as int].template,
                    binds@[found@[j] as int].discord_roles@,
                ),
            roles@ == prefix + hit_roles(acc + hits.take(k as int)),
            best_fits(*best, pick(acc + hits.take(k as int))),
        decreases found@.len() - k,
    {
        let ghost done = acc + hits.take(k as int);
        let b = &binds[found[k]];
        assert(hits[k as int] == (b.priority, b.template, b.discord_roles@));
        record_hit(roles, best, b.priority, &b.template, b.discord_roles.as_slice(), Ghost(prefix), Ghost(done));
        assert(acc + hits.take(k + 1) =~= done.push((b.priority, b.template, b.discord_roles@)));
        k = k + 1;
    }
    assert(hits.take(k as int) =~= hits);
}

fn kept_verified_roles(verified: &[RoleId], server_roles: &[RoleId]) -> (r: Vec<RoleId>)
    ensures
        r@ == kept_verified(verified@, server_roles@),
{
    let mut out: Vec<RoleId> = Vec::new();
    let mut i: usize = 0;
    while i < verified.len()
        invariant
            i <= verified@.len(),
            out@ == verified@.take(i as int).filter(|r: RoleId| server_roles@.contains(r)),
        decreases verified@.len() - i,
    {
        assert(verified@.take(i + 1).drop_last() =~= verified@.take(i as int));
        reveal_with_fuel(Seq::<RoleId>::filter, 1);
        if contains_role(server_roles, verified[i]) {
            out.push(verified[i]);
        }
        i = i + 1;
    }
    assert(verified@.take(i as int) =~= verified@);
    out
}

fn role_changes(
    all: &[RoleId],
    server_roles: &[RoleId],
    wanted: &[RoleId],
    member_roles: &[RoleId],
    sticky: &[RoleId],
) -> (r: (Vec<RoleId>, Vec<RoleId>))
    ensures
        r.0@ == added_of(all@, server_roles@, wanted@, member_roles@),
        r.1@ == removed_of(all@, server_roles@, wanted@, member_roles@, sticky@),
{
    let mut added: Vec<RoleId> = Vec::new();
    let mut removed: Vec<RoleId> = Vec::new();
    let mut i: usize = 0;
    while i < all.len()
        invariant
            i <= all@.len(),
            added@ == added_of(all@.take(i as int), server_roles@, wanted@, member_roles@),
            removed@ == removed_of(all@.take(i as int), server_roles@, wanted@, member_roles@, sticky@),
        decreases all@.len() - i,
    {
        assert(all@.take(i + 1).drop_last() =~= all@.take(i as int));
        reveal_with_fuel(Seq::<RoleId>::filter, 1);
        let role = all[i];
        if contains_role(server_roles, role) {
            if contains_role(wanted, role) {
                if !contains_role(member_roles, role) {
                    added.push(role);
                }
            } else if contains_role(member_roles, role) && !contains_role(sticky, role) {
                removed.push(role);
            }
        }
        i = i + 1;
    }
    assert(all@.take(i as int) =~= all@);
    (added, removed)
}

fn has_bypass(bypass: &[BypassRole], member_roles: &[RoleId], kind: BypassRoleKind) -> (r: bool)
    ensures
        r == bypasses(bypass@, member_roles@, kind),
{
    let mut i: usize = 0;
    while i < bypass.len()
        invariant
            i <= bypass@.len(),
            forall|j: int| 0 <= j < i ==> !(#[trigger] bypass@[j].kind == kind && member_roles@.contains(bypass@[j].role_id)),
        decreases bypass@.len() - i,
    {
        if bypass[i].kind == kind && contains_role(member_roles, bypass[i].role_id) {
            return true;
        }
        i = i + 1;
    }
    false
}

fn keep_unique(unique: &mut Vec<RoleId>, role: RoleId, removed: &[RoleId], Ghost(all): Ghost<Seq<RoleId>>, Ghost(i): Ghost<int>)
    requires
        0 <= i < all.len(),
        all[i] == role,
        old(unique)@ == dedup(all.take(i).filter(|r: RoleId| !removed@.contains(r))),
    ensures
        final(unique)@ == dedup(all.take(i + 1).filter(|r: RoleId| !removed@.contains(r))),
{
    assert(all.take(i + 1).drop_last() =~= all.take(i));
    reveal_with_fuel(Seq::<RoleId>::filter, 1);
    if !contains_role(removed, role) {
        let ghost f = all.take(i).filter(|r: RoleId| !removed@.contains(r));
        assert(all.take(i + 1).filter(|r: RoleId| !removed@.contains(r)) == f.push(role));
        assert(f.push(role).drop_last() =~= f);
        if !contains_role(unique.as_slice(), role) {
            unique.push(role);
        }
    }
}

fn new_role_ids(member_roles: &[RoleId], added: &[RoleId], removed: &[RoleId]) -> (r: Vec<u64>)
    ensures
        r@ == new_roles_of(member_roles@, added@, removed@),
{
    let ghost all = member_roles@ + added@;
    let mut unique: Vec<RoleId> = Vec::new();
    let mut i: usize = 0;
    while i < member_roles.len()
        invariant
            all == member_roles@ + added@,
            i <= member_roles@.len(),
            unique@ == dedup(all.take(i as int).filter(|r: RoleId| !removed@.contains(r))),
        decreases member_roles@.len() - i,
    {
        let role = member_roles[i];
        keep_unique(&mut unique, role, removed, Ghost(all), Ghost(i as int));
        i = i + 1;
    }
    let mut j: usize = 0;
    while j < added.len()
        invariant
            all == member_roles@ + added@,
            j <= added@.len(),
            unique@ == dedup(all.take(member_roles@.len() + j).filter(|r: RoleId| !removed@.contains(r))),
        decreases added@.len() - j,
    {
        let role = added[j];
        keep_unique(&mut unique, role, removed, Ghost(all), Ghost(member_roles@.len() + j));
        j = j + 1;
    }
    let ghost i = member_roles@.len() + j;
    assert(all.take(i as int) =~= all);
    let mut ids: Vec<u64> = Vec::new();
    let mut k: usize = 0;
    while k < unique.len()
        invariant
            k <= unique@.len(),
            ids@ == unique@.take(k as int).map_values(|r: RoleId| r.0),
        decreases unique@.len() - k,
    {
        ids.push(unique[k].0);
        assert(unique@.take(k + 1).map_values(|r: RoleId| r.0) =~= unique@.take(k as int).map_values(
            |r: RoleId| r.0,
        ).push(unique@[k as int].0));
        k = k + 1;
    }
    assert(unique@.take(k as int) =~= unique@);
    ids
}

impl<'u> UpdateUser<'u> {
    /// The Roblox account the member is judged by.
    pub fn roblox_account(&self) -> (id: RobloxUserId)
        ensures
            id == self.account(),
    {
        broadcast use vstd::std_specs::hash::group_hash_axioms;

        match self.user.linked_accounts.get(&self.guild.guild_id.0) {
            Some(id) => *id,
            None => self.user.default_account_id,
        }
    }

    /// Finishes the decision once the member is known to meet the binds
    /// `hits`: `wanted` holds the roles they should have and `best` the bind
    /// that decides the nickname.
    fn change(&self, wanted: Vec<RoleId>, best: Option<(i32, Template)>, roblox_user: &PartialUser, Ghost(hits): Ghost<Seq<Hit>>) -> (r: Result<
        MemberUpdate,
        UpdateUserError,
    >)
        requires
            wanted@ == kept_verified(self.guild.verified_roles@, self.server.roles@) + hit_roles(hits),
            best_fits(best, pick(hits)),
        ensures
            plan_of(r) == self.change_for(hits, *roblox_user),
    {
        let (added, removed) = role_changes(
            self.all_roles,
            self.server.roles.as_slice(),
            wanted.as_slice(),
            self.discord_member.roles.as_slice(),
            self.guild.sticky_roles.as_slice(),
        );
        let role_bypass = has_bypass(
            self.guild.bypass_roles.as_slice(),
            self.discord_member.roles.as_slice(),
            BypassRoleKind::Roles,
        );
        let roles = if !role_bypass && (added.len() > 0 || removed.len() > 0) {
            Some(new_role_ids(self.discord_member.roles.as_slice(), added.as_slice(), removed.as_slice()))
        } else {
            None
        };
        let nickname = match &best {
            Some((_, template)) => template.nickname(roblox_user, self.user.user_id, self.discord_user.username.as_str()),
            None => match &self.guild.default_template {
                Some(template) => template.nickname(roblox_user, self.user.user_id, self.discord_user.username.as_str()),
                None => Template::default().nickname(roblox_user, self.user.user_id, self.discord_user.username.as_str()),
            },
        };
        let current = match &self.discord_member.nickname {
            Some(n) => n.as_str(),
            None => self.discord_user.username.as_str(),
        };
        let nick_bypass = has_bypass(
            self.guild.bypass_roles.as_slice(),
            self.discord_member.roles.as_slice(),
            BypassRoleKind::Nickname,
        );
        let nick = if !nick_bypass && !str_eq(current, nickname.as_str()) {
            if nickname.as_str().len() > 32 || nickname.as_str().is_empty() {
                return Err(UpdateUserError::InvalidNickname(nickname));
            }
            Some(nickname.clone())
        } else {
            None
        };
        Ok(MemberUpdate { added_roles: added, removed_roles: removed, nickname, roles, nick })
    }

    /// Decides how to update the member, whose rank in each Roblox group they
    /// are in is `ranks`, whose Roblox account is `roblox_user`, and who owns
    /// the inventory items `inventory` (ids in decimal):
    /// - a deny list that applies refuses the update (the last one with the
    ///   most severe action); a custom deny list whose code does not parse or
    ///   evaluate refuses it too;
    /// - the member should have the guild's verified roles and the roles of
    ///   each bind they meet (a rank bind for their rank in its group, or for
    ///   rank 0 when they are not in it; a group bind for a group they are in;
    ///   a custom bind whose code holds; an asset bind for an item they own);
    ///   a custom bind whose code does not parse or evaluate refuses the update;
    /// - of the roles some bind gives, those the guild has are added when the
    ///   member lacks them and should have them, and removed when the member
    ///   has them, should not, and they are not sticky;
    /// - the nickname comes from the template of the first bind met with the
    ///   highest priority (rank, group, custom, then asset binds), else the
    ///   guild's default template; a new nickname that is empty or longer
    ///   than 32 bytes refuses the update;
    /// - roles and nickname are only sent when they change and no role of the
    ///   member bypasses them.
    pub fn execute(&self, ranks: &HashMap<u64, u32>, roblox_user: &PartialUser, inventory: &Vec<String>) -> (r: Result<
        MemberUpdate,
        UpdateUserError,
    >)
        ensures
            plan_of(r) == self.plan(ranks@, *roblox_user, crate::text::texts(inventory@)),
    {
        let ctx = EvaluationContext {
            roles: self.discord_member.roles.as_slice(),
            ranks,
            username: roblox_user.name.as_str(),
        };
        let lists = self.guild.deny_lists.as_slice();
        let found = match scan_deny_lists(lists, roblox_user.id, &ctx) {
            Ok(found) => found,
            Err((i, failure)) => {
                let id = lists[i].id;
                return Err(
                    match failure {
                        CodeFailure::Parse(e) => UpdateUserError::CustomDenylistParsing {
                            id,
                            err: e.description().to_owned(),
                        },
                        CodeFailure::Eval(e) => UpdateUserError::CustomDenylistEvaluation { id, err: e.message() },
                    },
                );
            },
        };
        if let Some(i) = strongest_list(lists, &found) {
            return Err(UpdateUserError::DenyList((self.discord_member.id, lists[i].clone())));
        }
        let customs = self.guild.custombinds.as_slice();
        let custom_found = match scan_custombinds(customs, &ctx) {
            Ok(found) => found,
            Err((i, failure)) => {
                let id = customs[i].custom_bind_id;
                return Err(
                    match failure {
                        CodeFailure::Parse(e) => UpdateUserError::CustombindParsing { id, err: e.description().to_owned() },
                        CodeFailure::Eval(err) => UpdateUserError::CustombindEvaluation { id, err },
                    },
                );
            },
        };
        let ghost member = member_of(ctx);
        let ghost custom_hits = custom_scan(customs@, member, customs@.len() as int)->Hits_0;
        let mut wanted = kept_verified_roles(self.guild.verified_roles.as_slice(), self.server.roles.as_slice());
        let ghost prefix = wanted@;
        let mut best: Option<(i32, Template)> = None;
        assert(wanted@ =~= prefix + hit_roles(Seq::<Hit>::empty()));
        record_rank_hits(
            self.guild.rankbinds.as_slice(),
            ranks,
            &mut wanted,
            &mut best,
            Ghost(prefix),
            Ghost(Seq::<Hit>::empty()),
        );
        let ghost acc = Seq::<Hit>::empty() + rank_hits(self.guild.rankbinds@, ranks@);
        record_group_hits(self.guild.groupbinds.as_slice(), ranks, &mut wanted, &mut best, Ghost(prefix), Ghost(acc));
        let ghost acc = acc + group_hits(self.guild.groupbinds@, ranks@);
        record_custom_hits(customs, &custom_found, Ghost(custom_hits), &mut wanted, &mut best, Ghost(prefix), Ghost(acc));
        let ghost acc = acc + custom_hits;
        record_asset_hits(self.guild.assetbinds.as_slice(), inventory, &mut wanted, &mut best, Ghost(prefix), Ghost(acc));
        let ghost acc = acc + asset_hits(self.guild.assetbinds@, crate::text::texts(inventory@));
        assert(acc =~= rank_hits(self.guild.rankbinds@, ranks@) + group_hits(self.guild.groupbinds@, ranks@) + custom_hits
            + asset_hits(self.guild.assetbinds@, crate::text::texts(inventory@)));
        self.change(wanted, best, roblox_user, Ghost(acc))
    }
}

/// What an update changes stays within what the guild's binds allow: no role
/// is both given and taken away, a role given is one the guild has and the
/// member lacks, a role taken away is one the member has and that is not
/// sticky, and the member's new roles hold every role given, no role taken
/// away, and no role twice.
pub open spec fn sound_change(u: UpdateUser, added: Seq<RoleId>, removed: Seq<RoleId>, roles: Option<Seq<u64>>) -> bool {
    &&& forall|i: int| 0 <= i < added.len() ==> !removed.contains(#[trigger] added[i])
    &&& forall|i: int|
        0 <= i < added.len() ==> u.server.roles@.contains(#[trigger] added[i]) && !u.discord_member.roles@.contains(
            added[i],
        )
    &&& forall|i: int|
        0 <= i < removed.len() ==> u.discord_member.roles@.contains(#[trigger] removed[i]) && !u.guild.sticky_roles@.contains(
            removed[i],
        )
    &&& roles matches Some(ids) ==> {
        &&& ids.no_duplicates()
        &&& forall|i: int| 0 <= i < removed.len() ==> !ids.contains(#[trigger] removed[i].0)
        &&& forall|i: int| 0 <= i < added.len() ==> ids.contains(#[trigger] added[i].0)
    }
}

proof fn lemma_change_sound(u: UpdateUser, hits: Seq<Hit>, roblox_user: PartialUser)
    ensures
        u.change_for(hits, roblox_user) matches UpdatePlan::Change(added, removed, _, roles, _) ==> sound_change(
            u,
            added,
            removed,
            roles,
        ),
{
    broadcast use vstd::seq_lib::group_filter_ensures;

    let wanted = kept_verified(u.guild.verified_roles@, u.server.roles@) + hit_roles(hits);
    let added = added_of(u.all_roles@, u.server.roles@, wanted, u.discord_member.roles@);
    let removed = removed_of(u.all_roles@, u.server.roles@, wanted, u.discord_member.roles@, u.guild.sticky_roles@);
    assert forall|i: int| 0 <= i < added.len() implies !removed.contains(#[trigger] added[i]) by {
        if removed.contains(added[i]) {
            let j = choose|j: int| 0 <= j < removed.len() && removed[j] == added[i];
            assert(wanted.contains(added[i]));
            assert(!wanted.contains(removed[j]));
        }
    }
    let member = u.discord_member.roles@;
    let kept = (member + added).filter(|r: RoleId| !removed.contains(r));
    let unique = dedup(kept);
    let ids = unique.map_values(|r: RoleId| r.0);
    crate::collections::lemma_dedup_contains(kept, RoleId(0));
    assert(unique.no_duplicates());
    assert(ids.no_duplicates()) by {
        assert forall|a: int, b: int| 0 <= a < ids.len() && 0 <= b < ids.len() && a != b implies ids[a] != ids[b] by {
            assert(unique[a] != unique[b]);
        }
    }
    assert forall|i: int| 0 <= i < removed.len() implies !ids.contains(#[trigger] removed[i].0) by {
        if ids.contains(removed[i].0) {
            let k = choose|k: int| 0 <= k < ids.len() && ids[k] == removed[i].0;
            crate::collections::lemma_dedup_contains(kept, unique[k]);
            assert(unique.contains(unique[k]));
            assert(kept.contains(unique[k]));
            let m = choose|m: int| 0 <= m < kept.len() && kept[m] == unique[k];
            assert(!removed.contains(kept[m]));
            assert(unique[k] == removed[i]);
        }
    }
    assert forall|i: int| 0 <= i < added.len() implies ids.contains(#[trigger] added[i].0) by {
        let x = added[i];
        assert((member + added)[member.len() + i] == x);
        assert(!removed.contains(x));
        assert(kept.contains(x));
        crate::collections::lemma_dedup_contains(kept, x);
        let k = choose|k: int| 0 <= k < unique.len() && unique[k] == x;
        assert(ids[k] == x.0);
    }
}

/// What an update changes stays within what the guild's binds allow (see
/// [`sound_change`]).
pub proof fn lemma_update_sound(u: UpdateUser, ranks: Map<u64, u32>, roblox_user: PartialUser, inventory: Seq<Seq<char>>)
    ensures
        u.plan(ranks, roblox_user, inventory) matches UpdatePlan::Change(added, removed, _, roles, _) ==> sound_change(
            u,
            added,
            removed,
            roles,
        ),
{
    let member = Member { roles: u.discord_member.roles@, ranks, username: roblox_user.name@ };
    let customs = u.guild.custombinds@;
    match custom_scan(customs, member, customs.len() as int) {
        CustomScan::Hits(custom) => {
            lemma_change_sound(
                u,
                rank_hits(u.guild.rankbinds@, ranks) + group_hits(u.guild.groupbinds@, ranks) + custom + asset_hits(
                    u.guild.assetbinds@,
                    inventory,
                ),
                roblox_user,
            );
        },
        _ => {},
    }
}

/// The roles that the binds `hits` give, bind after bind.
proof fn lemma_hit_roles_append(a: Seq<Hit>, b: Seq<Hit>)
    ensures
        hit_roles(a + b) == hit_roles(a) + hit_roles(b),
    decreases b.len(),
{
    if b.len() == 0 {
        assert(a + b =~= a);
        assert(hit_roles(a) + Seq::<RoleId>::empty() =~= hit_roles(a));
    } else {
        lemma_hit_roles_append(a, b.drop_last());
        assert((a + b).drop_last() =~= a + b.drop_last());
        assert((a + b).last() == b.last());
        assert(hit_roles(a) + hit_roles(b.drop_last()) + b.last().2 =~= hit_roles(a) + (hit_roles(b.drop_last())
            + b.last().2));
    }
}

/// A rank bind is met, and its roles given, exactly when the member holds the
/// bind's rank in the bind's group, or when the bind is for the Guest rank 0 and
/// the member is not in the group at all. The binds met give their hits in order.
pub proof fn lemma_rank_hits_met(binds: Seq<Rankbind>, ranks: Map<u64, u32>)
    ensures
        rank_hits(binds, ranks) == binds.filter(
            |b: Rankbind|
                (ranks.contains_key(b.group_id.0) && ranks[b.group_id.0] == b.group_rank_id) || (!ranks.contains_key(
                    b.group_id.0,
                ) && b.group_rank_id == 0),
        ).map_values(|b: Rankbind| (b.priority, b.template, b.discord_roles@)),
    decreases binds.len(),
{
    let pred = |b: Rankbind|
        (ranks.contains_key(b.group_id.0) && ranks[b.group_id.0] == b.group_rank_id) || (!ranks.contains_key(
            b.group_id.0,
        ) && b.group_rank_id == 0);
    let hit = |b: Rankbind| (b.priority, b.template, b.discord_roles@);
    if binds.len() == 0 {
        assert(binds.filter(pred) =~= Seq::<Rankbind>::empty());
        assert(binds.filter(pred).map_values(hit) =~= Seq::<Hit>::empty());
    } else {
        lemma_rank_hits_met(binds.drop_last(), ranks);
        reveal_with_fuel(Seq::<Rankbind>::filter, 1);
        let f = binds.drop_last().filter(pred);
        if pred(binds.last()) {
            assert(binds.filter(pred) == f.push(binds.last()));
            assert(f.push(binds.last()).map_values(hit) =~= f.map_values(hit).push(hit(binds.last())));
        } else {
            assert(binds.filter(pred) == f);
        }
    }
}

/// The roles of the hits contain every role of each hit.
proof fn lemma_hit_roles_contains(hits: Seq<Hit>, k: int, r: RoleId)
    requires
        0 <= k < hits.len(),
        hits[k].2.contains(r),
    ensures
        hit_roles(hits).contains(r),
    decreases hits.len(),
{
    let j = choose|j: int| 0 <= j < hits[k].2.len() && hits[k].2[j] == r;
    if k == hits.len() - 1 {
        assert((hit_roles(hits.drop_last()) + hits.last().2)[hit_roles(hits.drop_last()).len() + j] == r);
    } else {
        lemma_hit_roles_contains(hits.drop_last(), k, r);
        let i = choose|i: int| 0 <= i < hit_roles(hits.drop_last()).len() && hit_roles(hits.drop_last())[i] == r;
        assert((hit_roles(hits.drop_last()) + hits.last().2)[i] == r);
    }
}

/// A member who meets a rank bind (holds its rank in its group, or is not in the
/// group and the bind is for the Guest rank 0) is given each role of that bind
/// that the guild has, that is among the roles the binds manage, and that the
/// member lacks.
pub proof fn lemma_rank_bind_gives_roles(
    u: UpdateUser,
    ranks: Map<u64, u32>,
    roblox_user: PartialUser,
    inventory: Seq<Seq<char>>,
    i: int,
    r: RoleId,
)
    requires
        0 <= i < u.guild.rankbinds@.len(),
        ({
            let b = u.guild.rankbinds@[i];
            (ranks.contains_key(b.group_id.0) && ranks[b.group_id.0] == b.group_rank_id) || (!ranks.contains_key(
                b.group_id.0,
            ) && b.group_rank_id == 0)
        }),
        u.guild.rankbinds@[i].discord_roles@.contains(r),
        u.all_roles@.contains(r),
        u.server.roles@.contains(r),
        !u.discord_member.roles@.contains(r),
    ensures
        u.plan(ranks, roblox_user, inventory) matches UpdatePlan::Change(added, _, _, _, _) ==> added.contains(r),
{
    let binds = u.guild.rankbinds@;
    let pred = |b: Rankbind|
        (ranks.contains_key(b.group_id.0) && ranks[b.group_id.0] == b.group_rank_id) || (!ranks.contains_key(
            b.group_id.0,
        ) && b.group_rank_id == 0);
    let hit = |b: Rankbind| (b.priority, b.template, b.discord_roles@);
    lemma_rank_hits_met(binds, ranks);
    binds.lemma_filter_contains(pred, i);
    let f = binds.filter(pred);
    let k = choose|k: int| 0 <= k < f.len() && f[k] == binds[i];
    assert(rank_hits(binds, ranks)[k] == hit(binds[i]));
    lemma_hit_roles_contains(rank_hits(binds, ranks), k, r);
    let member = Member { roles: u.discord_member.roles@, ranks, username: roblox_user.name@ };
    let customs = u.guild.custombinds@;
    match custom_scan(customs, member, customs.len() as int) {
        CustomScan::Hits(custom) => {
            let rest = group_hits(u.guild.groupbinds@, ranks) + custom + asset_hits(u.guild.assetbinds@, inventory);
            let hits = rank_hits(binds, ranks) + group_hits(u.guild.groupbinds@, ranks) + custom + asset_hits(
                u.guild.assetbinds@,
                inventory,
            );
            assert(hits =~= rank_hits(binds, ranks) + rest);
            lemma_hit_roles_append(rank_hits(binds, ranks), rest);
            let hr = hit_roles(rank_hits(binds, ranks));
            let a = choose|a: int| 0 <= a < hr.len() && hr[a] == r;
            assert(hit_roles(hits)[a] == r);
            let kept = kept_verified(u.guild.verified_roles@, u.server.roles@);
            let wanted = kept + hit_roles(hits);
            assert(wanted[kept.len() + a] == r);
            let all = u.all_roles@;
            let x = choose|x: int| 0 <= x < all.len() && all[x] == r;
            all.lemma_filter_contains(
                |q: RoleId| u.server.roles@.contains(q) && wanted.contains(q) && !u.discord_member.roles@.contains(q),
                x,
            );
        },
        _ => {},
    }
}

/// A group bind is met, and its roles given, exactly when the member is in the
/// bind's group, whatever the rank; the binds met give their hits in order.
pub proof fn lemma_group_hits_met(binds: Seq<Groupbind>, ranks: Map<u64, u32>)
    ensures
        group_hits(binds, ranks) == binds.filter(|b: Groupbind| ranks.contains_key(b.group_id.0)).map_values(
            |b: Groupbind| (b.priority, b.template, b.discord_roles@),
        ),
    decreases binds.len(),
{
    let pred = |b: Groupbind| ranks.contains_key(b.group_id.0);
    let hit = |b: Groupbind| (b.priority, b.template, b.discord_roles@);
    if binds.len() == 0 {
        assert(binds.filter(pred) =~= Seq::<Groupbind>::empty());
        assert(binds.filter(pred).map_values(hit) =~= Seq::<Hit>::empty());
    } else {
        lemma_group_hits_met(binds.drop_last(), ranks);
        reveal_with_fuel(Seq::<Groupbind>::filter, 1);
        let f = binds.drop_last().filter(pred);
        if pred(binds.last()) {
            assert(binds.filter(pred) == f.push(binds.last()));
            assert(f.push(binds.last()).map_values(hit) =~= f.map_values(hit).push(hit(binds.last())));
        } else {
            assert(binds.filter(pred) == f);
        }
    }
}

/// An asset bind is met, and its roles given, exactly when the member's
/// inventory lists the bind's asset id (in decimal); the binds met give their
/// hits in order.
pub proof fn lemma_asset_hits_met(binds: Seq<Assetbind>, inventory: Seq<Seq<char>>)
    ensures
        asset_hits(binds, inventory) == binds.filter(
            |b: Assetbind| inventory.contains(decimal(b.asset_id.0 as nat)),
        ).map_values(|b: Assetbind| (b.priority, b.template, b.discord_roles@)),
    decreases binds.len(),
{
    let pred = |b: Assetbind| inventory.contains(decimal(b.asset_id.0 as nat));
    let hit = |b: Assetbind| (b.priority, b.template, b.discord_roles@);
    if binds.len() == 0 {
        assert(binds.filter(pred) =~= Seq::<Assetbind>::empty());
        assert(binds.filter(pred).map_values(hit) =~= Seq::<Hit>::empty());
    } else {
        lemma_asset_hits_met(binds.drop_last(), inventory);
        reveal_with_fuel(Seq::<Assetbind>::filter, 1);
        let f = binds.drop_last().filter(pred);
        if pred(binds.last()) {
            assert(binds.filter(pred) == f.push(binds.last()));
            assert(f.push(binds.last()).map_values(hit) =~= f.map_values(hit).push(hit(binds.last())));
        } else {
            assert(binds.filter(pred) == f);
        }
    }
}

/// A member who has one of the guild's bypass roles of kind `Roles` gets no
/// new set of roles sent, and one who has a bypass role of kind `Nickname` no
/// new nickname sent, whatever the binds say.
pub proof fn lemma_bypass_roles_hold_back(
    u: UpdateUser,
    ranks: Map<u64, u32>,
    roblox_user: PartialUser,
    inventory: Seq<Seq<char>>,
    j: int,
)
    requires
        0 <= j < u.guild.bypass_roles@.len(),
        u.discord_member.roles@.contains(u.guild.bypass_roles@[j].role_id),
    ensures
        u.plan(ranks, roblox_user, inventory) matches UpdatePlan::Change(_, _, _, roles, nick) ==> {
            &&& u.guild.bypass_roles@[j].kind == BypassRoleKind::Roles ==> roles is None
            &&& u.guild.bypass_roles@[j].kind == BypassRoleKind::Nickname ==> nick is None
        },
{
    let bypass = u.guild.bypass_roles@;
    assert(bypass[j].kind == bypass[j].kind);
    if bypass[j].kind == BypassRoleKind::Roles {
        assert(bypasses(bypass, u.discord_member.roles@, BypassRoleKind::Roles));
    }
    if bypass[j].kind == BypassRoleKind::Nickname {
        assert(bypasses(bypass, u.discord_member.roles@, BypassRoleKind::Nickname));
    }
}

/// The bind that decides the nickname is, among the binds met, the first of
/// those with the highest priority; when no bind is met, none decides it.
pub proof fn lemma_pick_first_highest(hits: Seq<Hit>) -> (k: int)
    ensures
        hits.len() == 0 ==> pick(hits) is None,
        hits.len() > 0 ==> {
            &&& 0 <= k < hits.len()
            &&& pick(hits) == Some(hits[k])
            &&& forall|i: int| 0 <= i < hits.len() ==> #[trigger] hits[i].0 <= hits[k].0
            &&& forall|i: int| 0 <= i < k ==> #[trigger] hits[i].0 < hits[k].0
        },
    decreases hits.len(),
{
    if hits.len() == 0 {
        0
    } else if hits.len() == 1 {
        assert(hits.drop_last().len() == 0);
        assert(pick(hits.drop_last()) is None);
        0
    } else {
        let rest = hits.drop_last();
        let k0 = lemma_pick_first_highest(rest);
        assert(rest[k0] == hits[k0]);
        assert forall|i: int| 0 <= i < rest.len() implies #[trigger] hits[i].0 <= hits[k0].0 by {
            assert(rest[i] == hits[i]);
        }
        if hits[k0].0 < hits.last().0 {
            assert forall|i: int| 0 <= i < hits.len() - 1 implies #[trigger] hits[i].0 < hits[hits.len() - 1].0 by {
                assert(rest[i] == hits[i]);
            }
            hits.len() - 1
        } else {
            assert forall|i: int| 0 <= i < k0 implies #[trigger] hits[i].0 < hits[k0].0 by {
                assert(rest[i] == hits[i]);
            }
            k0
        }
    }
}

proof fn lemma_deny_scan_finds(lists: Seq<DenyList>, roblox_id: RobloxUserId, member: Member, k: int, j: int)
    requires
        0 <= j < k,
        deny_verdict(lists[j], roblox_id, member) == Verdict::Holds(true),
    ensures
        deny_scan(lists, roblox_id, member, k) matches Scan::Found(s) ==> s.contains(j),
    decreases k,
{
    if j < k - 1 {
        lemma_deny_scan_finds(lists, roblox_id, member, k - 1, j);
        match deny_scan(lists, roblox_id, member, k - 1) {
            Scan::Found(s) => {
                let x = choose|x: int| 0 <= x < s.len() && s[x] == j;
                assert(s.push(k - 1)[x] == j);
            },
            _ => {},
        }
    } else {
        match deny_scan(lists, roblox_id, member, k - 1) {
            Scan::Found(s) => {
                assert(s.push(k - 1)[s.len() as int] == j);
            },
            _ => {},
        }
    }
}

proof fn lemma_strongest_some(lists: Seq<DenyList>, found: Seq<int>)
    requires
        found.len() > 0,
    ensures
        strongest(lists, found) is Some,
{
}

/// A member whose Roblox account is on one of the guild's user deny lists,
/// or who is in a group on one of its group deny lists, is never updated:
/// the update is refused.
pub proof fn lemma_deny_listed_refused(
    u: UpdateUser,
    ranks: Map<u64, u32>,
    roblox_user: PartialUser,
    inventory: Seq<Seq<char>>,
    i: int,
)
    requires
        0 <= i < u.guild.deny_lists@.len(),
        match u.guild.deny_lists@[i].data {
            DenyListData::User(x) => x == roblox_user.id,
            DenyListData::Group(g) => ranks.contains_key(g.0),
            DenyListData::Custom(_) => false,
        },
    ensures
        u.plan(ranks, roblox_user, inventory) is Refused,
{
    let lists = u.guild.deny_lists@;
    let member = Member { roles: u.discord_member.roles@, ranks, username: roblox_user.name@ };
    lemma_deny_scan_finds(lists, roblox_user.id, member, lists.len() as int, i);
    match deny_scan(lists, roblox_user.id, member, lists.len() as int) {
        Scan::Found(s) => {
            lemma_strongest_some(lists, s);
        },
        _ => {},
    }
}

} // verus!

//! The in-memory reference database: accounts, account invites, safety
//! reports and moderation records, with the queries the services make.

use vstd::prelude::*;
use crate::accounts::{Account, AccountFollowUp, AccountRecord, DeletionInfo, EmailVerification, due_for_deletion};
use crate::admin::{
    AdminAuditItem, AdminCase, AdminCaseComment, AdminComment, PartialAdminCase,
    PartialAdminCaseComment, PartialAdminComment,
};
use crate::errors::Error;
use crate::table::{Record, Table, models, position_of, take_limit, lemma_read_after_upsert};
use crate::text::{views, has_infix, lex_le, lemma_lex_total, lemma_lex_transitive, lemma_lex_antisymmetric, opt_view, opt_str_view, contains_text, same_text, text_le, lemma_views_push};
use crate::timestamp::{Timestamp, now_utc, now_iso8601};
use crate::subscriptions::find_string;

verus! {

/// Account invite ticket
pub struct AccountInvite {
    /// Invite code
    pub id: String,
    /// Whether this invite ticket has been used
    pub used: bool,
    /// User ID that this invite was claimed by
    pub claimed_by: Option<String>,
}

/// The part of a safety report that moderation cases read and write.
pub struct SafetyReport {
    /// The report ID
    pub id: String,
    /// The case the report is assigned to, if any
    pub case_id: Option<String>,
}

impl Record for Account {
    type M = AccountRecord;

    open spec fn model(&self) -> AccountRecord {
        self.record()
    }

    fn duplicate(&self) -> (r: Account) {
        Account::duplicate(self)
    }
}

impl Record for AccountInvite {
    type M = AccountInvite;

    open spec fn model(&self) -> AccountInvite {
        *self
    }

    fn duplicate(&self) -> (r: AccountInvite) {
        AccountInvite { id: self.id.clone(), used: self.used, claimed_by: self.claimed_by.clone() }
    }
}

impl Record for SafetyReport {
    type M = SafetyReport;

    open spec fn model(&self) -> SafetyReport {
        *self
    }

    fn duplicate(&self) -> (r: SafetyReport) {
        SafetyReport { id: self.id.clone(), case_id: self.case_id.clone() }
    }
}

impl Record for AdminAuditItem {
    type M = AdminAuditItem;

    open spec fn model(&self) -> AdminAuditItem {
        *self
    }

    fn duplicate(&self) -> (r: AdminAuditItem) {
        AdminAuditItem::duplicate(self)
    }
}

/// A case's content, with its tags as a sequence.
pub struct CaseRecord {
    pub id: String,
    pub short_id: String,
    pub owner_id: String,
    pub title: String,
    pub status: String,
    pub closed_at: Option<String>,
    pub tags: Seq<String>,
}

impl Record for AdminCase {
    type M = CaseRecord;

    open spec fn model(&self) -> CaseRecord {
        CaseRecord {
            id: self.id,
            short_id: self.short_id,
            owner_id: self.owner_id,
            title: self.title,
            status: self.status,
            closed_at: self.closed_at,
            tags: self.tags@,
        }
    }

    fn duplicate(&self) -> (r: AdminCase) {
        AdminCase::duplicate(self)
    }
}

impl Record for AdminCaseComment {
    type M = AdminCaseComment;

    open spec fn model(&self) -> AdminCaseComment {
        *self
    }

    fn duplicate(&self) -> (r: AdminCaseComment) {
        AdminCaseComment::duplicate(self)
    }
}

impl Record for AdminComment {
    type M = AdminComment;

    open spec fn model(&self) -> AdminComment {
        *self
    }

    fn duplicate(&self) -> (r: AdminComment) {
        AdminComment::duplicate(self)
    }
}

/// One more element of `s` seen by a filter.
pub proof fn lemma_filter_take_step<T>(s: Seq<T>, p: spec_fn(T) -> bool, i: int)
    requires
        0 <= i < s.len(),
    ensures
        s.take(i + 1).filter(p) == (if p(s[i]) { s.take(i).filter(p).push(s[i]) } else { s.take(i).filter(p) }),
{
    reveal(Seq::filter);
    assert(s.take(i + 1).drop_last() =~= s.take(i));
    assert(s.take(i + 1).last() == s[i]);
}

/// Pushing a record pushes its content.
pub proof fn lemma_models_push<T: Record>(s: Seq<T>, t: T)
    ensures
        models(s.push(t)) == models(s).push(t.model()),
{
    assert(models(s.push(t)) =~= models(s).push(t.model()));
}

/// Whether an account waits for email verification (or an email move) with
/// token `token`, and the token's expiry is not before `now`.
pub open spec fn active_verification(token: Seq<char>, now: Timestamp) -> spec_fn(Account) -> bool {
    |a: Account| match a.verification {
        EmailVerification::Pending { token: t, expiry } => t@ == token && now.millis <= expiry.millis,
        EmailVerification::Moving { token: t, expiry, .. } => t@ == token && now.millis <= expiry.millis,
        EmailVerification::Verified => false,
    }
}

/// Whether an account has a password reset with token `token` whose expiry
/// is not before `now`.
pub open spec fn active_reset(token: Seq<char>, now: Timestamp) -> spec_fn(Account) -> bool {
    |a: Account| match a.password_reset {
        Some(r) => r.token@ == token && now.millis <= r.expiry.millis,
        None => false,
    }
}

/// Whether an account waits for deletion to be confirmed with token `token`
/// whose expiry is not before `now`.
pub open spec fn active_deletion(token: Seq<char>, now: Timestamp) -> spec_fn(Account) -> bool {
    |a: Account| match a.deletion {
        Some(DeletionInfo::WaitingForVerification { token: t, expiry }) => t@ == token && now.millis <= expiry.millis,
        _ => false,
    }
}

/// The answer of a token lookup: the first account that `p` accepts, or
/// `InvalidToken` when it accepts none.
pub open spec fn token_lookup(rs: Seq<Account>, p: spec_fn(Account) -> bool, r: Result<Account, Error>) -> bool {
    match r {
        Ok(a) => first_match(rs, p, Some(a)),
        Err(e) => e == Error::InvalidToken && first_match(rs, p, None),
    }
}

/// `Some(t)` holds the content of the first record of `s` that `p` accepts,
/// and `None` says that `p` accepts none.
pub open spec fn first_match<T: Record>(s: Seq<T>, p: spec_fn(T) -> bool, r: Option<T>) -> bool {
    match r {
        Some(t) => exists|i: int|
            0 <= i < s.len() && #[trigger] p(s[i]) && t.model() == s[i].model()
                && forall|j: int| 0 <= j < i ==> !p(#[trigger] s[j]),
        None => forall|j: int| 0 <= j < s.len() ==> !p(#[trigger] s[j]),
    }
}

/// `Some(a)` holds the content of the first account of `s` with normalised
/// email `email`, and `None` says that there is none.
pub open spec fn first_with_email(s: Seq<Account>, email: Seq<char>, r: Option<Account>) -> bool {
    first_match(s, |a: Account| a.email_normalised@ == email, r)
}

/// Whether no two accounts of `s` share a normalised email.
pub open spec fn emails_unique(s: Seq<Account>) -> bool {
    forall|i: int, j: int| #![trigger s[i], s[j]] 0 <= i < j < s.len() ==> s[i].email_normalised@ != s[j].email_normalised@
}

/// Whether some account of `s` has normalised email `email`.
pub open spec fn holds_email(s: Seq<Account>, email: Seq<char>) -> bool {
    exists|i: int| 0 <= i < s.len() && (#[trigger] s[i]).email_normalised@ == email
}

/// Whether every account of the table is stored under its own id.
pub open spec fn ids_are_keys(t: Table<Account>) -> bool {
    forall|i: int| 0 <= i < t.keys().len() ==> #[trigger] t.keys()[i] == t.records()[i].id@
}

/// After an account is saved, some stored account holds its email, and a
/// key that was stored already leaves the keys as they were.
pub proof fn lemma_save_holds_email(before: Table<Account>, after: Table<Account>, acc: Account)
    requires
        before.wf(),
        stored_in(before, after, acc.id@, acc),
    ensures
        holds_email(after.records(), acc.email_normalised@),
        before.keys().contains(acc.id@) ==> after.keys() == before.keys(),
{
    before.lemma_lengths();
    let ks = before.keys();
    let rs = before.records();
    let st = stored(ks, rs, acc.id@, acc).1;
    let rs2 = after.records();
    assert(models(rs2) == models(st));
    assert(rs2.len() == st.len()) by {
        assert(models(rs2).len() == rs2.len());
        assert(models(st).len() == st.len());
    }
    let slot = if ks.contains(acc.id@) { position_of(ks, acc.id@) } else { rs.len() as int };
    assert(0 <= slot < st.len());
    assert(st[slot] == acc);
    assert(models(rs2)[slot] == models(st)[slot]);
    assert(rs2[slot].email_normalised@ == acc.email_normalised@);
}

/// Saving an account keeps the emails unique and the accounts under their
/// ids, when no account stored under another key holds its email.
pub proof fn lemma_save_keeps_emails_unique(before: Table<Account>, after: Table<Account>, acc: Account)
    requires
        before.wf(),
        stored_in(before, after, acc.id@, acc),
        ids_are_keys(before),
        emails_unique(before.records()),
        forall|i: int|
            0 <= i < before.keys().len() && #[trigger] before.keys()[i] != acc.id@ ==> before.records()[i].email_normalised@
                != acc.email_normalised@,
    ensures
        ids_are_keys(after),
        emails_unique(after.records()),
        holds_email(after.records(), acc.email_normalised@),
{
    before.lemma_lengths();
    let ks = before.keys();
    let rs = before.records();
    let ks2 = after.keys();
    let st = stored(ks, rs, acc.id@, acc).1;
    let rs2 = after.records();
    assert(models(rs2) == models(st));
    assert(rs2.len() == st.len()) by {
        assert(models(rs2).len() == rs2.len());
        assert(models(st).len() == st.len());
    }
    assert forall|i: int| 0 <= i < rs2.len() implies (#[trigger] rs2[i]).email_normalised@ == st[i].email_normalised@
        && rs2[i].id@ == st[i].id@ by {
        assert(models(rs2)[i] == models(st)[i]);
    }
    let slot = if ks.contains(acc.id@) { position_of(ks, acc.id@) } else { rs.len() as int };
    assert(0 <= slot < st.len());
    assert(st[slot] == acc);
    assert(ks2.len() == st.len());
    assert(ks2[slot] == acc.id@);
    assert forall|i: int| 0 <= i < st.len() && i != slot implies #[trigger] st[i] == rs[i] && ks2[i] == ks[i] && ks[i] != acc.id@ by {
        if ks.contains(acc.id@) {
            assert(ks[slot] == acc.id@);
        }
    }
    assert forall|i: int| 0 <= i < ks2.len() implies #[trigger] ks2[i] == rs2[i].id@ by {
        if i != slot {
            assert(st[i] == rs[i]);
        }
    }
    assert forall|i: int, j: int| #![trigger rs2[i], rs2[j]] 0 <= i < j < rs2.len() implies rs2[i].email_normalised@
        != rs2[j].email_normalised@ by {
        if i != slot && j != slot {
            assert(st[i] == rs[i] && st[j] == rs[j]);
        } else if i == slot {
            assert(st[j] == rs[j] && ks[j] != acc.id@);
        } else {
            assert(st[i] == rs[i] && ks[i] != acc.id@);
        }
    }
    assert(rs2[slot].email_normalised@ == acc.email_normalised@);
}

/// The contents of the accounts of `s` that are due for deletion at `now`,
/// in order.
pub open spec fn due_accounts(s: Seq<Account>, now: Timestamp) -> Seq<AccountRecord> {
    models(s.filter(|a: Account| due_for_deletion(a, now)))
}

/// The tables of the reference database.
pub enum TableName {
    Accounts,
    AccountInvites,
    SafetyReports,
    AdminAudits,
    AdminCases,
    AdminCaseComments,
    AdminComments,
}

/// The reference database.
pub struct ReferenceDb {
    pub accounts: Table<Account>,
    pub account_invites: Table<AccountInvite>,
    pub safety_reports: Table<SafetyReport>,
    pub admin_audits: Table<AdminAuditItem>,
    pub admin_cases: Table<AdminCase>,
    pub admin_case_comments: Table<AdminCaseComment>,
    pub admin_comments: Table<AdminComment>,
}

/// Whether `a` and `b` hold the same tables, but for table `t`.
pub open spec fn unchanged_except(a: ReferenceDb, b: ReferenceDb, t: TableName) -> bool {
    &&& (t !is Accounts ==> a.accounts == b.accounts)
    &&& (t !is AccountInvites ==> a.account_invites == b.account_invites)
    &&& (t !is SafetyReports ==> a.safety_reports == b.safety_reports)
    &&& (t !is AdminAudits ==> a.admin_audits == b.admin_audits)
    &&& (t !is AdminCases ==> a.admin_cases == b.admin_cases)
    &&& (t !is AdminCaseComments ==> a.admin_case_comments == b.admin_case_comments)
    &&& (t !is AdminComments ==> a.admin_comments == b.admin_comments)
}

/// The records after storing `t` under `k`: in place of the record stored
/// there, or last when the key is new.
pub open spec fn stored<T: Record>(ks: Seq<Seq<char>>, rs: Seq<T>, k: Seq<char>, t: T) -> (Seq<Seq<char>>, Seq<T>) {
    if ks.contains(k) {
        (ks, rs.update(position_of(ks, k), t))
    } else {
        (ks.push(k), rs.push(t))
    }
}

/// Whether table `after` holds what storing `t` under `k` in `before` gives,
/// compared by content.
pub open spec fn stored_in<T: Record>(before: Table<T>, after: Table<T>, k: Seq<char>, t: T) -> bool {
    &&& after.keys() == stored(before.keys(), before.records(), k, t).0
    &&& models(after.records()) == models(stored(before.keys(), before.records(), k, t).1)
}

/// The result of `str::to_lowercase` on `s`.
pub uninterp spec fn lowercase(s: Seq<char>) -> Seq<char>;

/// `str::to_lowercase`: the contract names the result and says no more of
/// it (Unicode case mapping is the standard library's).
#[verifier::external_body]
fn to_lowercase(s: &str) -> (r: String)
    ensures
        r@ == lowercase(s@),
{
    s.to_lowercase()
}

/// Whether a case passes the filters of a search: its lowercased title holds
/// `title`, its status and owner are the given ones, and it holds one of
/// `tags`; a filter that is `None` passes every case.
pub open spec fn record_matches(
    c: CaseRecord,
    title: Option<Seq<char>>,
    status: Option<Seq<char>>,
    owner: Option<Seq<char>>,
    tags: Option<Seq<Seq<char>>>,
) -> bool {
    &&& (title matches Some(t) ==> has_infix(lowercase(c.title@), t))
    &&& (status matches Some(st) ==> c.status@ == st)
    &&& (owner matches Some(o) ==> c.owner_id@ == o)
    &&& (tags matches Some(ts) ==> shares_one(views(c.tags), ts))
}

/// Whether a case passes the filters of a search (see `record_matches`).
pub open spec fn case_matches(
    c: AdminCase,
    title: Option<Seq<char>>,
    status: Option<Seq<char>>,
    owner: Option<Seq<char>>,
    tags: Option<Seq<Seq<char>>>,
) -> bool {
    record_matches(c.model(), title, status, owner, tags)
}

/// Whether `have` holds one of `wanted`.
pub open spec fn shares_one(have: Seq<Seq<char>>, wanted: Seq<Seq<char>>) -> bool {
    exists|i: int| 0 <= i < wanted.len() && have.contains(#[trigger] wanted[i])
}

/// The views of optional strings.
pub open spec fn opt_views(o: Option<Vec<String>>) -> Option<Seq<Seq<char>>> {
    match o {
        Some(v) => Some(views(v@)),
        None => None,
    }
}

/// Whether `id` lies before the page bound: strictly below `before` in
/// code-point order, or any id when no bound is given.
pub open spec fn id_before(id: Seq<char>, before: Option<Seq<char>>) -> bool {
    match before {
        Some(b) => lex_le(id, b) && id != b,
        None => true,
    }
}

/// Whether a search returns case `c`: it passes the filters and its id lies
/// before the page bound.
pub open spec fn case_selected(
    c: AdminCase,
    title: Option<Seq<char>>,
    status: Option<Seq<char>>,
    owner: Option<Seq<char>>,
    tags: Option<Seq<Seq<char>>>,
    before: Option<Seq<char>>,
) -> bool {
    case_matches(c, title, status, owner, tags) && id_before(c.id@, before)
}

/// The cases a search returns: those that pass the filters and whose ids
/// are below `before` (when given), in storage order, at most `limit` of
/// them (all when `limit` is negative).
pub open spec fn case_search_result(
    rs: Seq<AdminCase>,
    title: Option<Seq<char>>,
    status: Option<Seq<char>>,
    owner: Option<Seq<char>>,
    tags: Option<Seq<Seq<char>>>,
    before: Option<Seq<char>>,
    limit: i64,
) -> Seq<CaseRecord> {
    models(take_limit(rs.filter(|c: AdminCase| case_selected(c, title, status, owner, tags, before)), limit))
}

/// Whether some item of `r` has id `id`.
pub open spec fn has_audit_id(r: Seq<AdminAuditItem>, id: Seq<char>) -> bool {
    exists|i: int| 0 <= i < r.len() && (#[trigger] r[i]).id@ == id
}

/// Whether `t` is the first item of `rs` with its id.
pub open spec fn first_of_id(rs: Seq<AdminAuditItem>, t: AdminAuditItem) -> bool {
    exists|j: int| 0 <= j < rs.len() && #[trigger] rs[j] == t && forall|k: int| 0 <= k < j ==> (#[trigger] rs[k]).id@ != t.id@
}

/// Whether `r` is the page of the audit log `rs` that a fetch answers: the
/// items whose ids are below `before` (all when it is not given), one per
/// id, newest (greatest id) first, at most `limit` of them (all when `limit`
/// is negative). Every item left out either shares its id with one that is
/// returned or is older than all that are returned, and when fewer than
/// `limit` are returned, every id below `before` is.
pub open spec fn audit_page(rs: Seq<AdminAuditItem>, before: Option<Seq<char>>, limit: i64, r: Seq<AdminAuditItem>) -> bool {
    &&& limit >= 0 ==> r.len() <= limit
    &&& forall|i: int| 0 <= i < r.len() ==> first_of_id(rs, #[trigger] r[i]) && id_before(r[i].id@, before)
    &&& forall|i: int, k: int| #![trigger r[i], r[k]] 0 <= i < k < r.len() ==> id_before(r[k].id@, Some(r[i].id@))
    &&& r.len() > 0 ==> forall|j: int|
        0 <= j < rs.len() && id_before(#[trigger] rs[j].id@, before) ==> has_audit_id(r, rs[j].id@) || id_before(
            rs[j].id@,
            Some(r.last().id@),
        )
    &&& (limit < 0 || r.len() < limit) ==> forall|j: int|
        0 <= j < rs.len() && id_before(#[trigger] rs[j].id@, before) ==> has_audit_id(r, rs[j].id@)
}

/// Whether `rs[b]` is the first item with the greatest id below `bound`.
pub open spec fn newest_at(rs: Seq<AdminAuditItem>, bound: Option<Seq<char>>, b: int) -> bool {
    &&& 0 <= b < rs.len()
    &&& id_before(rs[b].id@, bound)
    &&& forall|j: int| 0 <= j < rs.len() && id_before(#[trigger] rs[j].id@, bound) ==> lex_le(rs[j].id@, rs[b].id@)
    &&& forall|j: int| 0 <= j < b ==> (#[trigger] rs[j]).id@ != rs[b].id@
}

/// A case after `partial` is applied to it.
pub open spec fn case_after_edit(c: CaseRecord, partial: PartialAdminCase) -> CaseRecord {
    CaseRecord {
        id: match partial.id { Some(v) => v, None => c.id },
        short_id: match partial.short_id { Some(v) => v, None => c.short_id },
        owner_id: match partial.owner_id { Some(v) => v, None => c.owner_id },
        title: match partial.title { Some(v) => v, None => c.title },
        status: match partial.status { Some(v) => v, None => c.status },
        closed_at: match partial.closed_at { Some(v) => Some(v), None => c.closed_at },
        tags: match partial.tags { Some(v) => v@, None => c.tags },
    }
}

/// A case comment after `partial` is applied to it and it is stamped as
/// edited at `edited_at`.
pub open spec fn case_comment_after_edit(c: AdminCaseComment, partial: PartialAdminCaseComment, edited_at: String) -> AdminCaseComment {
    AdminCaseComment {
        id: match partial.id { Some(v) => v, None => c.id },
        case_id: match partial.case_id { Some(v) => v, None => c.case_id },
        user_id: match partial.user_id { Some(v) => v, None => c.user_id },
        edited_at: Some(edited_at),
        content: match partial.content { Some(v) => v, None => c.content },
    }
}

/// A comment after `partial` is applied to it and it is stamped as edited at
/// `edited_at`.
pub open spec fn comment_after_edit(c: AdminComment, partial: PartialAdminComment, edited_at: String) -> AdminComment {
    AdminComment {
        id: match partial.id { Some(v) => v, None => c.id },
        object_id: match partial.object_id { Some(v) => v, None => c.object_id },
        case_id: match partial.case_id { Some(v) => Some(v), None => c.case_id },
        user_id: match partial.user_id { Some(v) => v, None => c.user_id },
        edited_at: Some(edited_at),
        content: match partial.content { Some(v) => Some(v), None => c.content },
        system_message: match partial.system_message { Some(v) => Some(v), None => c.system_message },
        system_message_target: match partial.system_message_target { Some(v) => Some(v), None => c.system_message_target },
        system_message_context: match partial.system_message_context { Some(v) => Some(v), None => c.system_message_context },
    }
}

/// For records that are their own content, `models` is the identity.
proof fn lemma_models_identity(s: Seq<AdminComment>)
    ensures
        models(s) == s,
{
    assert(models(s) =~= s);
}

/// Whether `have` holds one of `wanted`.
fn holds_any(have: &Vec<String>, wanted: &Vec<String>) -> (r: bool)
    ensures
        r == shares_one(views(have@), views(wanted@)),
{
    let ghost tv = views(wanted@);
    let mut i: usize = 0;
    while i < wanted.len()
        invariant
            tv == views(wanted@),
            i <= wanted@.len(),
            forall|j: int| 0 <= j < i ==> !views(have@).contains(#[trigger] tv[j]),
        decreases wanted@.len() - i,
    {
        match find_string(have, &wanted[i]) {
            Some(k) => {
                proof {
                    assert(views(have@)[k as int] == tv[i as int]);
                    assert(views(have@).contains(tv[i as int]));
                }
                return true;
            },
            None => {
                proof {
                    if views(have@).contains(tv[i as int]) {
                        let k = choose|k: int| 0 <= k < views(have@).len() && views(have@)[k] == tv[i as int];
                        assert(have@[k]@ == wanted@[i as int]@);
                    }
                }
            },
        }
        i = i + 1;
    }
    false
}

/// Whether a case passes the filters of a search.
fn case_passes(c: &AdminCase, title: Option<&str>, status: Option<&str>, owner_id: Option<&str>, tags: &Option<Vec<String>>) -> (r: bool)
    ensures
        r == case_matches(*c, opt_str_view(title), opt_str_view(status), opt_str_view(owner_id), opt_views(*tags)),
{
    if let Some(t) = title {
        let lower = to_lowercase(c.title.as_str());
        if !contains_text(lower.as_str(), t) {
            return false;
        }
    }
    if let Some(st) = status {
        if !same_text(c.status.as_str(), st) {
            return false;
        }
    }
    if let Some(o) = owner_id {
        if !same_text(c.owner_id.as_str(), o) {
            return false;
        }
    }
    if let Some(ts) = tags {
        return holds_any(&c.tags, ts);
    }
    true
}

/// The position of the first item with the greatest id below `bound`, or
/// `None` when no id lies below it.
fn newest_below(tbl: &Table<AdminAuditItem>, bound: &Option<String>) -> (r: Option<usize>)
    requires
        tbl.wf(),
    ensures
        match r {
            None => forall|j: int| 0 <= j < tbl.records().len() ==> !id_before(#[trigger] tbl.records()[j].id@, opt_view(*bound)),
            Some(b) => newest_at(tbl.records(), opt_view(*bound), b as int),
        },
{
    let ghost rs = tbl.records();
    let ghost bd = opt_view(*bound);
    let bs: Option<&str> = match bound {
        Some(x) => Some(x.as_str()),
        None => None,
    };
    assert(opt_str_view(bs) == bd);
    let n = tbl.len();
    let mut best: Option<usize> = None;
    let mut i: usize = 0;
    while i < n
        invariant
            tbl.wf(),
            rs == tbl.records(),
            n == rs.len(),
            bd == opt_str_view(bs),
            i <= n,
            best is None ==> forall|j: int| 0 <= j < i ==> !id_before(#[trigger] rs[j].id@, bd),
            best matches Some(b) ==> {
                &&& b < i
                &&& id_before(rs[b as int].id@, bd)
                &&& forall|j: int| 0 <= j < i && id_before(#[trigger] rs[j].id@, bd) ==> lex_le(rs[j].id@, rs[b as int].id@)
                &&& forall|j: int| 0 <= j < b ==> (#[trigger] rs[j]).id@ != rs[b as int].id@
            },
        decreases n - i,
    {
        let t = tbl.at(i);
        if id_is_before(t.id.as_str(), bs) {
            match best {
                None => {
                    proof {
                        assert(rs[i as int] == *t);
                        lemma_lex_total(t.id@, t.id@);
                        assert forall|j: int| 0 <= j < i implies (#[trigger] rs[j]).id@ != rs[i as int].id@ by {
                            if rs[j].id@ == rs[i as int].id@ {
                                assert(id_before(rs[j].id@, bd));
                            }
                        }
                    }
                    best = Some(i);
                },
                Some(b) => {
                    let u = tbl.at(b);
                    if !text_le(t.id.as_str(), u.id.as_str()) {
                        proof {
                            lemma_lex_total(t.id@, u.id@);
                            assert forall|j: int| 0 <= j < i + 1 && id_before(#[trigger] rs[j].id@, bd) implies lex_le(
                                rs[j].id@,
                                t.id@,
                            ) by {
                                if j < i {
                                    lemma_lex_transitive(rs[j].id@, u.id@, t.id@);
                                } else {
                                    lemma_lex_total(t.id@, t.id@);
                                }
                            }
                            assert forall|j: int| 0 <= j < i implies (#[trigger] rs[j]).id@ != rs[i as int].id@ by {
                                if rs[j].id@ == rs[i as int].id@ {
                                    assert(id_before(rs[j].id@, bd));
                                }
                            }
                        }
                        best = Some(i);
                    }
                },
            }
        } else {
            proof {
                if best is None {
                    assert forall|j: int| 0 <= j < i + 1 implies !id_before(#[trigger] rs[j].id@, bd) by {
                        if j == i {
                            assert(rs[j] == *t);
                        }
                    }
                }
            }
        }
        i = i + 1;
    }
    proof {
        if let Some(b) = best {
            assert(newest_at(rs, bd, b as int));
        }
    }
    best
}

/// Whether `id` lies before the page bound `before` (see `id_before`).
fn id_is_before(id: &str, before: Option<&str>) -> (r: bool)
    ensures
        r == id_before(id@, opt_str_view(before)),
{
    match before {
        Some(b) => text_le(id, b) && !same_text(id, b),
        None => true,
    }
}

/// Copies of the records of `tbl` that `f` accepts, in storage order; `f`
/// decides as `p` states.
fn select<T: Record, F: Fn(&T) -> bool>(tbl: &Table<T>, f: &F, p: Ghost<spec_fn(T) -> bool>) -> (r: Vec<T>)
    requires
        tbl.wf(),
        forall|t: T| #[trigger] f.requires((&t,)),
        forall|t: T, b: bool| #[trigger] f.ensures((&t,), b) ==> b == p@(t),
    ensures
        models(r@) == models(tbl.records().filter(p@)),
{
    let ghost s = tbl.records();
    let mut out: Vec<T> = Vec::new();
    let mut i: usize = 0;
    while i < tbl.len()
        invariant
            tbl.wf(),
            s == tbl.records(),
            forall|t: T| #[trigger] f.requires((&t,)),
            forall|t: T, b: bool| #[trigger] f.ensures((&t,), b) ==> b == p@(t),
            i <= s.len(),
            models(out@) == models(s.take(i as int).filter(p@)),
        decreases s.len() - i,
    {
        let t = tbl.at(i);
        proof {
            lemma_filter_take_step(s, p@, i as int);
        }
        if f(t) {
            let ghost before = out@;
            let c = t.duplicate();
            out.push(c);
            proof {
                lemma_models_push(before, c);
                lemma_models_push(s.take(i as int).filter(p@), s[i as int]);
            }
        }
        i = i + 1;
    }
    proof {
        assert(s.take(s.len() as int) =~= s);
    }
    out
}

/// A copy of the first record of `tbl` that `f` accepts, if any; `f`
/// decides as `p` states.
fn first<T: Record, F: Fn(&T) -> bool>(tbl: &Table<T>, f: &F, p: Ghost<spec_fn(T) -> bool>) -> (r: Option<T>)
    requires
        tbl.wf(),
        forall|t: T| #[trigger] f.requires((&t,)),
        forall|t: T, b: bool| #[trigger] f.ensures((&t,), b) ==> b == p@(t),
    ensures
        first_match(tbl.records(), p@, r),
{
    let ghost s = tbl.records();
    let mut i: usize = 0;
    while i < tbl.len()
        invariant
            tbl.wf(),
            s == tbl.records(),
            forall|t: T| #[trigger] f.requires((&t,)),
            forall|t: T, b: bool| #[trigger] f.ensures((&t,), b) ==> b == p@(t),
            i <= s.len(),
            forall|j: int| 0 <= j < i ==> !p@(#[trigger] s[j]),
        decreases s.len() - i,
    {
        let t = tbl.at(i);
        if f(t) {
            let c = t.duplicate();
            assert(p@(s[i as int]));
            return Some(c);
        }
        i = i + 1;
    }
    None
}

impl ReferenceDb {
    /// Every table keeps one record per key.
    pub open spec fn wf(&self) -> bool {
        &&& self.accounts.wf()
        &&& self.account_invites.wf()
        &&& self.safety_reports.wf()
        &&& self.admin_audits.wf()
        &&& self.admin_cases.wf()
        &&& self.admin_case_comments.wf()
        &&& self.admin_comments.wf()
    }

    /// An empty database.
    pub fn new() -> (r: ReferenceDb)
        ensures
            r.wf(),
            r.accounts.records().len() == 0,
            r.account_invites.records().len() == 0,
            r.safety_reports.records().len() == 0,
            r.admin_audits.records().len() == 0,
            r.admin_cases.records().len() == 0,
            r.admin_case_comments.records().len() == 0,
            r.admin_comments.records().len() == 0,
    {
        ReferenceDb {
            accounts: Table::new(),
            account_invites: Table::new(),
            safety_reports: Table::new(),
            admin_audits: Table::new(),
            admin_cases: Table::new(),
            admin_case_comments: Table::new(),
            admin_comments: Table::new(),
        }
    }

    // -----------------------------------------------------------------
    // Accounts

    /// Find account by id
    pub fn fetch_account(&self, id: &str) -> (r: Result<Account, Error>)
        requires
            self.wf(),
        ensures
            match r {
                Ok(a) => self.accounts.get_spec(id@) == Some(a.record()),
                Err(e) => e == Error::UnknownUser && self.accounts.get_spec(id@) is None,
            },
    {
        match self.accounts.get(id) {
            Some(a) => Ok(a),
            None => Err(Error::UnknownUser),
        }
    }

    /// Find account by normalised email
    pub fn fetch_account_by_normalised_email(&self, normalised_email: &str) -> (r: Result<Option<Account>, Error>)
        requires
            self.wf(),
        ensures
            r matches Ok(o) && first_with_email(self.accounts.records(), normalised_email@, o),
    {
        let f = |a: &Account| -> (b: bool)
            ensures
                b == (a.email_normalised@ == normalised_email@),
        { same_text(a.email_normalised.as_str(), normalised_email) };
        let found = first(&self.accounts, &f, Ghost(|a: Account| a.email_normalised@ == normalised_email@));
        Ok(found)
    }

    /// Find account with active pending email verification: the first
    /// account waiting for verification (or an email move) with `token`
    /// whose expiry has not passed at `now`.
    pub fn fetch_account_with_email_verification_at(&self, token: &str, now: Timestamp) -> (r: Result<Account, Error>)
        requires
            self.wf(),
        ensures
            token_lookup(self.accounts.records(), active_verification(token@, now), r),
    {
        let f = |a: &Account| -> (b: bool)
            ensures
                b == active_verification(token@, now)(*a),
        {
            match &a.verification {
                EmailVerification::Pending { token: t, expiry } => same_text(t.as_str(), token) && now.is_at_or_before(*expiry),
                EmailVerification::Moving { token: t, expiry, .. } => same_text(t.as_str(), token) && now.is_at_or_before(*expiry),
                EmailVerification::Verified => false,
            }
        };
        match first(&self.accounts, &f, Ghost(active_verification(token@, now))) {
            Some(a) => Ok(a),
            None => Err(Error::InvalidToken),
        }
    }

    /// Find account with active pending email verification, by the system
    /// clock.
    pub fn fetch_account_with_email_verification(&self, token: &str) -> (r: Result<Account, Error>)
        requires
            self.wf(),
        ensures
            exists|now: Timestamp|
                0 <= now.millis && now.in_range() && #[trigger] token_lookup(self.accounts.records(), active_verification(token@, now), r),
    {
        let now = now_utc();
        let r = self.fetch_account_with_email_verification_at(token, now);
        assert(token_lookup(self.accounts.records(), active_verification(token@, now), r));
        r
    }

    /// Find account with active password reset: the first account whose
    /// password reset has `token` and whose expiry has not passed at `now`.
    pub fn fetch_account_with_password_reset_at(&self, token: &str, now: Timestamp) -> (r: Result<Account, Error>)
        requires
            self.wf(),
        ensures
            token_lookup(self.accounts.records(), active_reset(token@, now), r),
    {
        let f = |a: &Account| -> (b: bool)
            ensures
                b == active_reset(token@, now)(*a),
        {
            match &a.password_reset {
                Some(reset) => same_text(reset.token.as_str(), token) && now.is_at_or_before(reset.expiry),
                None => false,
            }
        };
        match first(&self.accounts, &f, Ghost(active_reset(token@, now))) {
            Some(a) => Ok(a),
            None => Err(Error::InvalidToken),
        }
    }

    /// Find account with active password reset, by the system clock.
    pub fn fetch_account_with_password_reset(&self, token: &str) -> (r: Result<Account, Error>)
        requires
            self.wf(),
        ensures
            exists|now: Timestamp|
                0 <= now.millis && now.in_range() && #[trigger] token_lookup(self.accounts.records(), active_reset(token@, now), r),
    {
        let now = now_utc();
        let r = self.fetch_account_with_password_reset_at(token, now);
        assert(token_lookup(self.accounts.records(), active_reset(token@, now), r));
        r
    }

    /// Find account with active deletion token: the first account waiting
    /// for deletion to be confirmed with `token` whose expiry has not passed
    /// at `now`.
    pub fn fetch_account_with_deletion_token_at(&self, token: &str, now: Timestamp) -> (r: Result<Account, Error>)
        requires
            self.wf(),
        ensures
            token_lookup(self.accounts.records(), active_deletion(token@, now), r),
    {
        let f = |a: &Account| -> (b: bool)
            ensures
                b == active_deletion(token@, now)(*a),
        {
            match &a.deletion {
                Some(DeletionInfo::WaitingForVerification { token: t, expiry }) => same_text(t.as_str(), token)
                    && now.is_at_or_before(*expiry),
                _ => false,
            }
        };
        match first(&self.accounts, &f, Ghost(active_deletion(token@, now))) {
            Some(a) => Ok(a),
            None => Err(Error::InvalidToken),
        }
    }

    /// Find account with active deletion token, by the system clock.
    pub fn fetch_account_with_deletion_token(&self, token: &str) -> (r: Result<Account, Error>)
        requires
            self.wf(),
        ensures
            exists|now: Timestamp|
                0 <= now.millis && now.in_range() && #[trigger] token_lookup(self.accounts.records(), active_deletion(token@, now), r),
    {
        let now = now_utc();
        let r = self.fetch_account_with_deletion_token_at(token, now);
        assert(token_lookup(self.accounts.records(), active_deletion(token@, now), r));
        r
    }

    /// The accounts scheduled for deletion at or before `now`, in storage
    /// order.
    pub fn fetch_accounts_due_for_deletion_at(&self, now: Timestamp) -> (r: Vec<Account>)
        requires
            self.wf(),
        ensures
            models(r@) == due_accounts(self.accounts.records(), now),
    {
        let f = |a: &Account| -> (b: bool)
            ensures
                b == due_for_deletion(*a, now),
        {
            match &a.deletion {
                Some(DeletionInfo::Scheduled { after }) => after.is_at_or_before(now),
                _ => false,
            }
        };
        select(&self.accounts, &f, Ghost(|a: Account| due_for_deletion(a, now)))
    }

    /// Find accounts which are due to be deleted, by the system clock.
    pub fn fetch_accounts_due_for_deletion(&self) -> (r: Result<Vec<Account>, Error>)
        requires
            self.wf(),
        ensures
            r matches Ok(v) && exists|now: Timestamp| models(v@) == #[trigger] due_accounts(self.accounts.records(), now),
    {
        let now = now_utc();
        let v = self.fetch_accounts_due_for_deletion_at(now);
        assert(models(v@) == due_accounts(self.accounts.records(), now));
        Ok(v)
    }

    /// Save account
    pub fn save_account(&mut self, account: &Account) -> (r: Result<(), Error>)
        requires
            old(self).wf(),
        ensures
            r is Ok,
            final(self).wf(),
            stored_in(old(self).accounts, final(self).accounts, account.id@, *account),
            unchanged_except(*old(self), *final(self), TableName::Accounts),
    {
        let c = Account::duplicate(account);
        let ghost ks = self.accounts.keys();
        let ghost rs = self.accounts.records();
        proof {
            self.accounts.lemma_lengths();
        }
        self.accounts.upsert(account.id.clone(), c);
        proof {
            let st = stored(ks, rs, account.id@, c);
            let sa = stored(ks, rs, account.id@, *account);
            assert(c.model() == account.model());
            assert(st.1.len() == sa.1.len());
            assert forall|i: int| 0 <= i < st.1.len() implies #[trigger] models(st.1)[i] == models(sa.1)[i] by {
                assert(st.1[i].model() == sa.1[i].model());
            }
            assert(models(st.1) =~= models(sa.1));
        }
        Ok(())
    }

    /// Register an account for an email address. When an account with the
    /// same normalised address exists, nothing is stored and that account
    /// comes back with its follow-up (resend its verification, or send it a
    /// password reset). Otherwise a new account is stored under `id`, with
    /// the given password hash, awaiting verification with `pending` when
    /// verification mail was sent, or verified.
    pub fn register_account(
        &mut self,
        id: String,
        email: String,
        email_normalised: String,
        password_hash: String,
        pending: Option<(String, Timestamp)>,
    ) -> (r: (Account, Option<AccountFollowUp>))
        requires
            old(self).wf(),
        ensures
            final(self).wf(),
            unchanged_except(*old(self), *final(self), TableName::Accounts),
            r.0.email_normalised@ == email_normalised@,
            holds_email(final(self).accounts.records(), email_normalised@),
            emails_unique(old(self).accounts.records()) ==> emails_unique(final(self).accounts.records()),
            match r.1 {
                Some(follow_up) => {
                    &&& first_with_email(old(self).accounts.records(), email_normalised@, Some(r.0))
                    &&& (follow_up is ResendVerification) == (r.0.verification is Pending)
                    &&& final(self).accounts == old(self).accounts
                },
                None => {
                    &&& first_with_email(old(self).accounts.records(), email_normalised@, None)
                    &&& r.0.id == id && r.0.email == email && r.0.email_normalised == email_normalised
                    &&& r.0.password == password_hash
                    &&& !r.0.disabled
                    &&& r.0.verification == match pending {
                        Some((token, expiry)) => EmailVerification::Pending { token, expiry },
                        None => EmailVerification::Verified,
                    }
                    &&& r.0.password_reset is None && r.0.deletion is None && r.0.lockout is None
                    &&& r.0.mfa.totp_token is Disabled && r.0.mfa.recovery_codes@.len() == 0
                    &&& stored_in(old(self).accounts, final(self).accounts, id@, r.0)
                },
            },
    {
        let key = email_normalised.as_str();
        let existing = match self.fetch_account_by_normalised_email(key) {
            Ok(found) => found,
            Err(_) => None,
        };

        match existing {
            Some(account) => {
                proof {
                    let rs = self.accounts.records();
                    let k = choose|k: int|
                        0 <= k < rs.len() && (|a: Account| a.email_normalised@ == email_normalised@)(#[trigger] rs[k])
                            && account.model() == rs[k].model();
                    assert(rs[k].email_normalised@ == email_normalised@);
                    assert(account.email_normalised@ == rs[k].model().email_normalised@);
                    assert(account.email_normalised@ == email_normalised@);
                }
                let follow_up = account.existing_account_follow_up();
                (account, Some(follow_up))
            },
            None => {
                let ghost ks0 = self.accounts.keys();
                let ghost rs0 = self.accounts.records();
                proof {
                    self.accounts.lemma_lengths();
                }
                let mut account = Account::new_verified(id, email, email_normalised, password_hash);
                let _ = account.set_email_verification(self, pending);
                proof {
                    let rs1 = self.accounts.records();
                    let st = stored(ks0, rs0, account.id@, account).1;
                    assert(models(rs1) == models(st));
                    assert(rs1.len() == st.len()) by {
                        assert(models(rs1).len() == rs1.len());
                        assert(models(st).len() == st.len());
                    }
                    assert forall|i: int| 0 <= i < rs1.len() implies (#[trigger] rs1[i]).email_normalised@
                        == st[i].email_normalised@ by {
                        assert(models(rs1)[i] == models(st)[i]);
                    }
                    let e = account.email_normalised@;
                    // No account held the new email before.
                    assert forall|i: int| 0 <= i < rs0.len() implies (#[trigger] rs0[i]).email_normalised@ != e by {
                        assert(!(|a: Account| a.email_normalised@ == email_normalised@)(rs0[i]));
                    }
                    let slot = if ks0.contains(account.id@) { position_of(ks0, account.id@) } else { rs0.len() as int };
                    assert(0 <= slot < st.len());
                    assert(st[slot] == account);
                    assert forall|i: int| 0 <= i < st.len() && i != slot implies #[trigger] st[i] == rs0[i] by {}
                    assert(rs1[slot].email_normalised@ == e);
                    if emails_unique(rs0) {
                        assert forall|i: int, j: int| #![trigger rs1[i], rs1[j]] 0 <= i < j < rs1.len() implies rs1[i].email_normalised@
                            != rs1[j].email_normalised@ by {
                            if i != slot && j != slot {
                                assert(st[i] == rs0[i] && st[j] == rs0[j]);
                            } else if i == slot {
                                assert(st[j] == rs0[j]);
                            } else {
                                assert(st[i] == rs0[i]);
                            }
                        }
                    }
                }
                (account, None)
            },
        }
    }

    // -----------------------------------------------------------------
    // Account invites

    /// Find invite by id
    pub fn fetch_account_invite(&self, id: &str) -> (r: Result<AccountInvite, Error>)
        requires
            self.wf(),
        ensures
            match r {
                Ok(inv) => self.account_invites.get_spec(id@) == Some(inv),
                Err(e) => e == Error::InvalidInvite && self.account_invites.get_spec(id@) is None,
            },
    {
        match self.account_invites.get(id) {
            Some(inv) => Ok(inv),
            None => Err(Error::InvalidInvite),
        }
    }

    /// Save invite
    pub fn save_account_invite(&mut self, invite: &AccountInvite) -> (r: Result<(), Error>)
        requires
            old(self).wf(),
        ensures
            r is Ok,
            final(self).wf(),
            stored_in(old(self).account_invites, final(self).account_invites, invite.id@, *invite),
            unchanged_except(*old(self), *final(self), TableName::AccountInvites),
    {
        let c = invite.duplicate();
        self.account_invites.upsert(invite.id.clone(), c);
        Ok(())
    }

    // -----------------------------------------------------------------
    // Moderation audit log

    /// Insert an audit item; an item with the same id is refused.
    pub fn admin_audit_insert(&mut self, audit: AdminAuditItem) -> (r: Result<(), Error>)
        requires
            old(self).wf(),
        ensures
            final(self).wf(),
            unchanged_except(*old(self), *final(self), TableName::AdminAudits),
            match r {
                Ok(()) => !old(self).admin_audits.keys().contains(audit.id@)
                    && final(self).admin_audits.keys() == old(self).admin_audits.keys().push(audit.id@)
                    && final(self).admin_audits.records() == old(self).admin_audits.records().push(audit),
                Err(e) => e == Error::DatabaseError && old(self).admin_audits.keys().contains(audit.id@)
                    && final(self).admin_audits.keys() == old(self).admin_audits.keys()
                    && final(self).admin_audits.records() == old(self).admin_audits.records(),
            },
    {
        let key = audit.id.clone();
        if self.admin_audits.insert_new(key, audit) {
            Ok(())
        } else {
            Err(Error::DatabaseError)
        }
    }

    /// The audit log, newest (greatest id) first: the items whose ids are
    /// below `before_id` when it is given, at most `limit` of them (all when
    /// `limit` is negative); see `audit_page`.
    pub fn admin_audit_fetch(&self, before_id: Option<&str>, limit: i64) -> (r: Result<Vec<AdminAuditItem>, Error>)
        requires
            self.wf(),
        ensures
            r matches Ok(v) && audit_page(self.admin_audits.records(), opt_str_view(before_id), limit, v@),
    {
        let ghost rs = self.admin_audits.records();
        let ghost before = opt_str_view(before_id);
        let n = self.admin_audits.len();
        let mut out: Vec<AdminAuditItem> = Vec::new();
        let mut bound: Option<String> = match before_id {
            Some(b) => Some(b.to_string()),
            None => None,
        };
        let ghost mut idx: Seq<int> = Seq::empty();
        loop
            invariant_except_break
                limit >= 0 ==> out@.len() < limit || out@.len() == limit,
            invariant
                self.admin_audits.wf(),
                rs == self.admin_audits.records(),
                n == rs.len(),
                before == opt_str_view(before_id),
                out@.len() == idx.len(),
                out@.len() <= n,
                limit >= 0 ==> out@.len() <= limit,
                forall|i: int| 0 <= i < out@.len() ==> {
                    &&& 0 <= #[trigger] idx[i] < n
                    &&& out@[i] == rs[idx[i]]
                    &&& id_before(out@[i].id@, before)
                    &&& forall|k: int| 0 <= k < idx[i] ==> (#[trigger] rs[k]).id@ != out@[i].id@
                },
                forall|i: int, k: int| #![trigger out@[i], out@[k]] 0 <= i < k < out@.len() ==> id_before(out@[k].id@, Some(out@[i].id@)),
                opt_view(bound) == (if out@.len() == 0 { before } else { Some(out@.last().id@) }),
                forall|j: int|
                    0 <= j < n && id_before(#[trigger] rs[j].id@, before) ==> has_audit_id(out@, rs[j].id@) || id_before(
                        rs[j].id@,
                        opt_view(bound),
                    ),
            ensures
                (limit >= 0 && out@.len() == limit) || forall|j: int|
                    0 <= j < n ==> !id_before(#[trigger] rs[j].id@, opt_view(bound)),
            decreases n - out@.len(),
        {
            if limit >= 0 && (out.len() as u64) >= (limit as u64) {
                break;
            }
            match newest_below(&self.admin_audits, &bound) {
                None => {
                    break;
                },
                Some(b) => {
                    let item = self.admin_audits.at(b).duplicate();
                    let ghost old_out = out@;
                    let ghost old_bound = opt_view(bound);
                    proof {
                        assert(item == rs[b as int]);
                        // The new item's id lies below every id returned so far.
                        assert forall|i: int| 0 <= i < old_out.len() implies id_before(item.id@, Some(old_out[i].id@)) by {
                            let last = old_out.last().id@;
                            assert(old_bound == Some(last));
                            if i < old_out.len() - 1 {
                                assert(id_before(last, Some(old_out[i].id@)));
                                lemma_lex_transitive(item.id@, last, old_out[i].id@);
                                if item.id@ == old_out[i].id@ {
                                    lemma_lex_antisymmetric(last, item.id@);
                                }
                            }
                        }
                        // It lies below `before` too.
                        if old_out.len() > 0 {
                            let last = old_out.last().id@;
                            let li = old_out.len() - 1;
                            assert(0 <= idx[li] < n);
                            assert(id_before(last, before));
                            if let Some(bb) = before {
                                lemma_lex_transitive(item.id@, last, bb);
                                if item.id@ == bb {
                                    lemma_lex_antisymmetric(last, bb);
                                }
                            }
                        }
                        // It is not one returned before, so the indices stay distinct.
                        let nidx = idx.push(b as int);
                        assert forall|p: int, q: int| 0 <= p < q < nidx.len() implies nidx[p] != nidx[q] by {
                            if q == idx.len() {
                                assert(id_before(item.id@, Some(old_out[p].id@)));
                            } else {
                                assert(id_before(old_out[q].id@, Some(old_out[p].id@)));
                            }
                        }
                        assert(nidx.no_duplicates());
                        nidx.unique_seq_to_set();
                        vstd::set_lib::lemma_int_range(0, n as int);
                        assert(nidx.to_set().subset_of(vstd::set_lib::set_int_range(0, n as int)));
                        vstd::set_lib::lemma_len_subset(nidx.to_set(), vstd::set_lib::set_int_range(0, n as int));
                    }
                    bound = Some(item.id.clone());
                    out.push(item);
                    proof {
                        idx = idx.push(b as int);
                        assert(out@ == old_out.push(item));
                        assert forall|j: int|
                            0 <= j < n && id_before(#[trigger] rs[j].id@, before) implies has_audit_id(out@, rs[j].id@)
                                || id_before(rs[j].id@, opt_view(bound)) by {
                            if has_audit_id(old_out, rs[j].id@) {
                                let w = choose|w: int| 0 <= w < old_out.len() && (#[trigger] old_out[w]).id@ == rs[j].id@;
                                assert(out@[w] == old_out[w]);
                            } else {
                                assert(id_before(rs[j].id@, old_bound));
                                assert(lex_le(rs[j].id@, item.id@));
                                if rs[j].id@ == item.id@ {
                                    assert(out@[old_out.len() as int] == item);
                                }
                            }
                        }
                    }
                },
            }
        }
        proof {
            assert forall|i: int| 0 <= i < out@.len() implies first_of_id(rs, #[trigger] out@[i]) && id_before(
                out@[i].id@,
                before,
            ) by {
                assert(rs[idx[i]] == out@[i]);
            }
            if limit < 0 || out@.len() < limit {
                assert forall|j: int| 0 <= j < rs.len() && id_before(#[trigger] rs[j].id@, before) implies has_audit_id(
                    out@,
                    rs[j].id@,
                ) by {
                    assert(!id_before(rs[j].id@, opt_view(bound)));
                }
            }
            if out@.len() > 0 {
                assert forall|j: int| 0 <= j < rs.len() && id_before(#[trigger] rs[j].id@, before) implies has_audit_id(
                    out@,
                    rs[j].id@,
                ) || id_before(rs[j].id@, Some(out@.last().id@)) by {
                    if !has_audit_id(out@, rs[j].id@) {
                        assert(id_before(rs[j].id@, opt_view(bound)));
                    }
                }
            }
        }
        Ok(out)
    }

    // -----------------------------------------------------------------
    // Moderation cases

    /// Create a case; a case with the same id is refused.
    pub fn admin_case_create(&mut self, case: AdminCase) -> (r: Result<(), Error>)
        requires
            old(self).wf(),
        ensures
            final(self).wf(),
            unchanged_except(*old(self), *final(self), TableName::AdminCases),
            match r {
                Ok(()) => !old(self).admin_cases.keys().contains(case.id@)
                    && final(self).admin_cases.keys() == old(self).admin_cases.keys().push(case.id@)
                    && final(self).admin_cases.records() == old(self).admin_cases.records().push(case),
                Err(e) => e == Error::DatabaseError && old(self).admin_cases.keys().contains(case.id@)
                    && final(self).admin_cases.keys() == old(self).admin_cases.keys()
                    && final(self).admin_cases.records() == old(self).admin_cases.records(),
            },
    {
        let key = case.id.clone();
        if self.admin_cases.insert_new(key, case) {
            Ok(())
        } else {
            Err(Error::DatabaseError)
        }
    }

    /// Assign the report stored under `report_id` to case `case_id`.
    pub fn admin_case_assign_report(&mut self, case_id: &str, report_id: &str) -> (r: Result<(), Error>)
        requires
            old(self).wf(),
        ensures
            final(self).wf(),
            unchanged_except(*old(self), *final(self), TableName::SafetyReports),
            final(self).safety_reports.keys() == old(self).safety_reports.keys(),
            match r {
                Ok(()) => {
                    let p = position_of(old(self).safety_reports.keys(), report_id@);
                    &&& old(self).safety_reports.keys().contains(report_id@)
                    &&& final(self).safety_reports.records().len() == old(self).safety_reports.records().len()
                    &&& final(self).safety_reports.records()[p].id == old(self).safety_reports.records()[p].id
                    &&& opt_view(final(self).safety_reports.records()[p].case_id) == Some(case_id@)
                    &&& forall|j: int| 0 <= j < old(self).safety_reports.records().len() && j != p
                        ==> final(self).safety_reports.records()[j] == old(self).safety_reports.records()[j]
                },
                Err(e) => e == Error::NotFound && !old(self).safety_reports.keys().contains(report_id@)
                    && final(self).safety_reports.records() == old(self).safety_reports.records(),
            },
    {
        proof {
            self.safety_reports.lemma_lengths();
        }
        match self.safety_reports.find(report_id) {
            Some(i) => {
                let id = self.safety_reports.at(i).id.clone();
                self.safety_reports.replace_at(i, SafetyReport { id, case_id: Some(case_id.to_owned()) });
                Ok(())
            },
            None => Err(Error::NotFound),
        }
    }

    /// Edit the case stored under `case_id`: every field that `partial`
    /// holds is overwritten; the case stays under its key.
    pub fn admin_case_edit(&mut self, case_id: &str, partial: &PartialAdminCase) -> (r: Result<(), Error>)
        requires
            old(self).wf(),
        ensures
            final(self).wf(),
            unchanged_except(*old(self), *final(self), TableName::AdminCases),
            final(self).admin_cases.keys() == old(self).admin_cases.keys(),
            match r {
                Ok(()) => {
                    let p = position_of(old(self).admin_cases.keys(), case_id@);
                    &&& old(self).admin_cases.keys().contains(case_id@)
                    &&& models(final(self).admin_cases.records()) == models(old(self).admin_cases.records()).update(
                        p,
                        case_after_edit(old(self).admin_cases.records()[p].model(), *partial),
                    )
                },
                Err(e) => e == Error::NotFound && !old(self).admin_cases.keys().contains(case_id@)
                    && final(self).admin_cases.records() == old(self).admin_cases.records(),
            },
    {
        match self.admin_cases.find(case_id) {
            Some(i) => {
                proof {
                    self.admin_cases.lemma_lengths();
                }
                let ghost rs = self.admin_cases.records();
                let mut c = self.admin_cases.at(i).duplicate();
                c.apply_options(partial.duplicate());
                self.admin_cases.replace_at(i, c);
                proof {
                    assert(models(rs.update(i as int, c)) =~= models(rs).update(
                        i as int,
                        case_after_edit(rs[i as int].model(), *partial),
                    ));
                }
                Ok(())
            },
            None => Err(Error::NotFound),
        }
    }

    /// Fetch the case stored under `case_id`.
    pub fn admin_case_fetch(&self, case_id: &str) -> (r: Result<AdminCase, Error>)
        requires
            self.wf(),
        ensures
            match r {
                Ok(c) => self.admin_cases.get_spec(case_id@) == Some(c.model()),
                Err(e) => e == Error::NotFound && self.admin_cases.get_spec(case_id@) is None,
            },
    {
        match self.admin_cases.get(case_id) {
            Some(c) => Ok(c),
            None => Err(Error::NotFound),
        }
    }

    /// Fetch the first case whose short id is `short_id`.
    pub fn admin_case_fetch_from_shorthand(&self, short_id: &str) -> (r: Result<AdminCase, Error>)
        requires
            self.wf(),
        ensures
            match r {
                Ok(c) => first_match(self.admin_cases.records(), |c: AdminCase| c.short_id@ == short_id@, Some(c)),
                Err(e) => e == Error::NotFound
                    && first_match(self.admin_cases.records(), |c: AdminCase| c.short_id@ == short_id@, None),
            },
    {
        let f = |c: &AdminCase| -> (b: bool)
            ensures
                b == (c.short_id@ == short_id@),
        { same_text(c.short_id.as_str(), short_id) };
        match first(&self.admin_cases, &f, Ghost(|c: AdminCase| c.short_id@ == short_id@)) {
            Some(c) => Ok(c),
            None => Err(Error::NotFound),
        }
    }

    /// Search cases: `title` is matched inside the lowercased title, the
    /// other filters directly; when `before_id` is given only cases whose
    /// ids are below it are returned; at most `limit` cases, in storage order.
    pub fn admin_case_search(
        &self,
        title: Option<&str>,
        status: Option<&str>,
        owner_id: Option<&str>,
        tags: Option<Vec<String>>,
        before_id: Option<&str>,
        limit: i64,
    ) -> (r: Result<Vec<AdminCase>, Error>)
        requires
            self.wf(),
        ensures
            r matches Ok(v) && models(v@) == case_search_result(
                self.admin_cases.records(),
                opt_str_view(title),
                opt_str_view(status),
                opt_str_view(owner_id),
                opt_views(tags),
                opt_str_view(before_id),
                limit,
            ),
    {
        let ghost p = |c: AdminCase| case_selected(
            c,
            opt_str_view(title),
            opt_str_view(status),
            opt_str_view(owner_id),
            opt_views(tags),
            opt_str_view(before_id),
        );
        let tv: Ghost<Option<Seq<Seq<char>>>> = Ghost(opt_views(tags));
        let f = |c: &AdminCase| -> (b: bool)
            ensures
                b == case_selected(
                    *c,
                    opt_str_view(title),
                    opt_str_view(status),
                    opt_str_view(owner_id),
                    tv@,
                    opt_str_view(before_id),
                ),
        { case_passes(c, title, status, owner_id, &tags) && id_is_before(c.id.as_str(), before_id) };
        let mut v = select(&self.admin_cases, &f, Ghost(p));
        let ghost all = v@;
        if limit >= 0 && (limit as u64) < (v.len() as u64) {
            v.truncate(limit as usize);
            proof {
                assert(models(v@) =~= models(all).take(limit as int));
            }
        }
        proof {
            let fl = self.admin_cases.records().filter(p);
            assert(models(all).len() == models(fl).len());
            assert(all.len() == fl.len());
            if limit >= 0 && limit < fl.len() {
                assert(models(fl.take(limit as int)) =~= models(fl).take(limit as int));
            }
        }
        Ok(v)
    }

    // -----------------------------------------------------------------
    // Comments on cases

    /// Insert a case comment; a comment with the same id is refused.
    pub fn admin_case_comment_insert(&mut self, comment: AdminCaseComment) -> (r: Result<(), Error>)
        requires
            old(self).wf(),
        ensures
            final(self).wf(),
            unchanged_except(*old(self), *final(self), TableName::AdminCaseComments),
            match r {
                Ok(()) => !old(self).admin_case_comments.keys().contains(comment.id@)
                    && final(self).admin_case_comments.keys() == old(self).admin_case_comments.keys().push(comment.id@)
                    && final(self).admin_case_comments.records() == old(self).admin_case_comments.records().push(comment),
                Err(e) => e == Error::DatabaseError && old(self).admin_case_comments.keys().contains(comment.id@)
                    && final(self).admin_case_comments.keys() == old(self).admin_case_comments.keys()
                    && final(self).admin_case_comments.records() == old(self).admin_case_comments.records(),
            },
    {
        let key = comment.id.clone();
        if self.admin_case_comments.insert_new(key, comment) {
            Ok(())
        } else {
            Err(Error::DatabaseError)
        }
    }

    /// Update the case comment stored under `comment_id` with `partial`,
    /// stamping `edited_at` as the time of the edit.
    pub fn admin_case_comment_update_at(
        &mut self,
        comment_id: &str,
        partial: &PartialAdminCaseComment,
        edited_at: String,
    ) -> (r: Result<(), Error>)
        requires
            old(self).wf(),
        ensures
            final(self).wf(),
            unchanged_except(*old(self), *final(self), TableName::AdminCaseComments),
            final(self).admin_case_comments.keys() == old(self).admin_case_comments.keys(),
            match r {
                Ok(()) => {
                    let p = position_of(old(self).admin_case_comments.keys(), comment_id@);
                    &&& old(self).admin_case_comments.keys().contains(comment_id@)
                    &&& final(self).admin_case_comments.records() == old(self).admin_case_comments.records().update(
                        p,
                        case_comment_after_edit(old(self).admin_case_comments.records()[p], *partial, edited_at),
                    )
                },
                Err(e) => e == Error::NotFound && !old(self).admin_case_comments.keys().contains(comment_id@)
                    && final(self).admin_case_comments.records() == old(self).admin_case_comments.records(),
            },
    {
        proof {
            self.admin_case_comments.lemma_lengths();
        }
        match self.admin_case_comments.find(comment_id) {
            Some(i) => {
                let mut c = self.admin_case_comments.at(i).duplicate();
                c.apply_options(partial.duplicate());
                c.edited_at = Some(edited_at);
                self.admin_case_comments.replace_at(i, c);
                Ok(())
            },
            None => Err(Error::NotFound),
        }
    }

    /// Update a case comment, stamping the current time as its edit time.
    pub fn admin_case_comment_update(&mut self, comment_id: &str, partial: &PartialAdminCaseComment) -> (r: Result<(), Error>)
        requires
            old(self).wf(),
        ensures
            final(self).wf(),
            unchanged_except(*old(self), *final(self), TableName::AdminCaseComments),
            final(self).admin_case_comments.keys() == old(self).admin_case_comments.keys(),
            (r is Ok) == old(self).admin_case_comments.keys().contains(comment_id@),
            r matches Err(e) ==> e == Error::NotFound
                && final(self).admin_case_comments.records() == old(self).admin_case_comments.records(),
    {
        self.admin_case_comment_update_at(comment_id, partial, now_iso8601())
    }

    /// The comments on case `case_id`, in storage order.
    pub fn admin_case_comment_fetch(&self, case_id: &str) -> (r: Result<Vec<AdminCaseComment>, Error>)
        requires
            self.wf(),
        ensures
            r matches Ok(v) && models(v@) == models(
                self.admin_case_comments.records().filter(|c: AdminCaseComment| c.case_id@ == case_id@),
            ),
    {
        let f = |c: &AdminCaseComment| -> (b: bool)
            ensures
                b == (c.case_id@ == case_id@),
        { same_text(c.case_id.as_str(), case_id) };
        Ok(select(&self.admin_case_comments, &f, Ghost(|c: AdminCaseComment| c.case_id@ == case_id@)))
    }

    // -----------------------------------------------------------------
    // Comments on objects

    /// Insert a comment; a comment with the same id is refused.
    pub fn admin_comment_insert(&mut self, comment: AdminComment) -> (r: Result<(), Error>)
        requires
            old(self).wf(),
        ensures
            final(self).wf(),
            unchanged_except(*old(self), *final(self), TableName::AdminComments),
            match r {
                Ok(()) => !old(self).admin_comments.keys().contains(comment.id@)
                    && final(self).admin_comments.keys() == old(self).admin_comments.keys().push(comment.id@)
                    && final(self).admin_comments.records() == old(self).admin_comments.records().push(comment),
                Err(e) => e == Error::DatabaseError && old(self).admin_comments.keys().contains(comment.id@)
                    && final(self).admin_comments.keys() == old(self).admin_comments.keys()
                    && final(self).admin_comments.records() == old(self).admin_comments.records(),
            },
    {
        let key = comment.id.clone();
        if self.admin_comments.insert_new(key, comment) {
            Ok(())
        } else {
            Err(Error::DatabaseError)
        }
    }

    /// Update the comment stored under `comment_id` with `partial`, stamping
    /// `edited_at` as the time of the edit.
    pub fn admin_comment_update_at(
        &mut self,
        comment_id: &str,
        partial: &PartialAdminComment,
        edited_at: String,
    ) -> (r: Result<(), Error>)
        requires
            old(self).wf(),
        ensures
            final(self).wf(),
            unchanged_except(*old(self), *final(self), TableName::AdminComments),
            final(self).admin_comments.keys() == old(self).admin_comments.keys(),
            match r {
                Ok(()) => {
                    let p = position_of(old(self).admin_comments.keys(), comment_id@);
                    &&& old(self).admin_comments.keys().contains(comment_id@)
                    &&& final(self).admin_comments.records() == old(self).admin_comments.records().update(
                        p,
                        comment_after_edit(old(self).admin_comments.records()[p], *partial, edited_at),
                    )
                },
                Err(e) => e == Error::NotFound && !old(self).admin_comments.keys().contains(comment_id@)
                    && final(self).admin_comments.records() == old(self).admin_comments.records(),
            },
    {
        proof {
            self.admin_comments.lemma_lengths();
        }
        match self.admin_comments.find(comment_id) {
            Some(i) => {
                let mut c = self.admin_comments.at(i).duplicate();
                c.apply_options(partial.duplicate());
                c.edited_at = Some(edited_at);
                self.admin_comments.replace_at(i, c);
                Ok(())
            },
            None => Err(Error::NotFound),
        }
    }

    /// Update a comment, stamping the current time as its edit time.
    pub fn admin_comment_update(&mut self, comment_id: &str, partial: &PartialAdminComment) -> (r: Result<(), Error>)
        requires
            old(self).wf(),
        ensures
            final(self).wf(),
            unchanged_except(*old(self), *final(self), TableName::AdminComments),
            final(self).admin_comments.keys() == old(self).admin_comments.keys(),
            (r is Ok) == old(self).admin_comments.keys().contains(comment_id@),
            r matches Err(e) ==> e == Error::NotFound
                && final(self).admin_comments.records() == old(self).admin_comments.records(),
    {
        self.admin_comment_update_at(comment_id, partial, now_iso8601())
    }

    /// Fetch the comment stored under `id`.
    pub fn admin_comment_fetch(&self, id: &str) -> (r: Result<AdminComment, Error>)
        requires
            self.wf(),
        ensures
            match r {
                Ok(c) => self.admin_comments.get_spec(id@) == Some(c),
                Err(e) => e == Error::NotFound && self.admin_comments.get_spec(id@) is None,
            },
    {
        match self.admin_comments.get(id) {
            Some(c) => Ok(c),
            None => Err(Error::NotFound),
        }
    }

    /// Fetch all comments related to the case. This includes comments made on other objects.
    pub fn admin_comment_fetch_related_case(&self, case_id: &str) -> (r: Result<Vec<AdminComment>, Error>)
        requires
            self.wf(),
        ensures
            r matches Ok(v) && v@ == self.admin_comments.records().filter(
                |c: AdminComment| opt_view(c.case_id) == Some(case_id@),
            ),
    {
        let f = |c: &AdminComment| -> (b: bool)
            ensures
                b == (opt_view(c.case_id) == Some(case_id@)),
        {
            match &c.case_id {
                Some(x) => same_text(x.as_str(), case_id),
                None => false,
            }
        };
        let v = select(&self.admin_comments, &f, Ghost(|c: AdminComment| opt_view(c.case_id) == Some(case_id@)));
        proof {
            lemma_models_identity(v@);
            lemma_models_identity(self.admin_comments.records().filter(|c: AdminComment| opt_view(c.case_id) == Some(case_id@)));
        }
        Ok(v)
    }

    /// Fetch all comments on an object
    pub fn admin_comment_fetch_object_comments(&self, object_id: &str) -> (r: Result<Vec<AdminComment>, Error>)
        requires
            self.wf(),
        ensures
            r matches Ok(v) && v@ == self.admin_comments.records().filter(
                |c: AdminComment| c.object_id@ == object_id@,
            ),
    {
        let f = |c: &AdminComment| -> (b: bool)
            ensures
                b == (c.object_id@ == object_id@),
        { same_text(c.object_id.as_str(), object_id) };
        let v = select(&self.admin_comments, &f, Ghost(|c: AdminComment| c.object_id@ == object_id@));
        proof {
            lemma_models_identity(v@);
            lemma_models_identity(self.admin_comments.records().filter(|c: AdminComment| c.object_id@ == object_id@));
        }
        Ok(v)
    }
}

/// Storing a record under a key and reading that key gives the record's
/// content back; every other key reads as before.
pub proof fn lemma_stored_reads_back<T: Record>(before: Table<T>, after: Table<T>, k: Seq<char>, t: T, other: Seq<char>)
    requires
        before.wf(),
        after.wf(),
        stored_in(before, after, k, t),
    ensures
        after.get_spec(k) == Some(t.model()),
        other != k ==> after.get_spec(other) == before.get_spec(other),
{
    before.lemma_lengths();
    after.lemma_lengths();
    let (ks2, rs2) = stored(before.keys(), before.records(), k, t);
    lemma_read_after_upsert(before.keys(), before.records(), ks2, rs2, k, t, other);
    assert(after.records().len() == models(after.records()).len());
    assert(rs2.len() == models(rs2).len());
    assert forall|i: int| 0 <= i < rs2.len() implies #[trigger] after.records()[i].model() == rs2[i].model() by {
        assert(models(after.records())[i] == models(rs2)[i]);
    }
    if ks2.contains(k) {
        let p = position_of(ks2, k);
        assert(ks2[p] == k);
    }
    if ks2.contains(other) {
        let q = position_of(ks2, other);
        assert(ks2[q] == other);
    }
}

/// Every case that a search returns passes its filters and has an id below
/// the page bound; there are at most `limit` of them when `limit` is not
/// negative; and when the limit does not cut the result, every stored case
/// that passes the filters and has an id below the bound is returned.
pub proof fn lemma_case_search_sound(
    rs: Seq<AdminCase>,
    title: Option<Seq<char>>,
    status: Option<Seq<char>>,
    owner: Option<Seq<char>>,
    tags: Option<Seq<Seq<char>>>,
    before: Option<Seq<char>>,
    limit: i64,
)
    ensures
        limit >= 0 ==> case_search_result(rs, title, status, owner, tags, before, limit).len() <= limit,
        forall|i: int| 0 <= i < case_search_result(rs, title, status, owner, tags, before, limit).len() ==> {
            let c = #[trigger] case_search_result(rs, title, status, owner, tags, before, limit)[i];
            record_matches(c, title, status, owner, tags) && id_before(c.id@, before)
        },
        (limit < 0 || limit >= rs.len()) ==> forall|j: int|
            0 <= j < rs.len() && case_selected(#[trigger] rs[j], title, status, owner, tags, before)
                ==> case_search_result(rs, title, status, owner, tags, before, limit).contains(rs[j].model()),
{
    let p = |c: AdminCase| case_selected(c, title, status, owner, tags, before);
    let f = rs.filter(p);
    let res = case_search_result(rs, title, status, owner, tags, before, limit);
    broadcast use vstd::seq_lib::group_filter_ensures;
    let t = take_limit(f, limit);
    assert(res == models(t));
    assert forall|i: int| 0 <= i < res.len() implies {
        let c = #[trigger] res[i];
        record_matches(c, title, status, owner, tags) && id_before(c.id@, before)
    } by {
        assert(t[i] == f[i]);
        assert(p(f[i]));
        assert(res[i] == t[i].model());
    }
    if limit < 0 || limit >= rs.len() {
        assert(t == f);
        assert forall|j: int| 0 <= j < rs.len() && case_selected(#[trigger] rs[j], title, status, owner, tags, before)
            implies res.contains(rs[j].model()) by {
            assert(p(rs[j]));
            assert(f.contains(rs[j]));
            let k = choose|k: int| 0 <= k < f.len() && f[k] == rs[j];
            assert(res[k] == f[k].model());
        }
    }
}



impl Account {
    /// Create a new account, or find the one that holds the email: an
    /// existing account gets its verification sent again (when unverified)
    /// or a password reset (otherwise), which fails when mail is not
    /// configured (no `pending` token); a new account is stored under `id`,
    /// awaiting verification with `pending` or verified. With the accounts
    /// stored under their ids and no email held twice, that stays so, and
    /// exactly one account holds the email afterwards.
    pub fn new(
        db: &mut ReferenceDb,
        id: String,
        email: String,
        email_normalised: String,
        password_hash: String,
        pending: Option<(String, Timestamp)>,
    ) -> (r: Result<Account, Error>)
        requires
            old(db).wf(),
        ensures
            final(db).wf(),
            unchanged_except(*old(db), *final(db), TableName::Accounts),
            holds_email(final(db).accounts.records(), email_normalised@),
            ids_are_keys(old(db).accounts) && emails_unique(old(db).accounts.records()) ==> ids_are_keys(final(db).accounts)
                && emails_unique(final(db).accounts.records()),
            first_with_email(old(db).accounts.records(), email_normalised@, None) ==> (r matches Ok(acc) && {
                &&& acc.id == id && acc.email == email && acc.email_normalised == email_normalised
                &&& acc.password == password_hash && !acc.disabled
                &&& acc.password_reset is None && acc.deletion is None && acc.lockout is None
                &&& acc.mfa.totp_token is Disabled && acc.mfa.recovery_codes@.len() == 0
                &&& acc.verification == match pending {
                    Some((token, expiry)) => EmailVerification::Pending { token, expiry },
                    None => EmailVerification::Verified,
                }
                &&& stored_in(old(db).accounts, final(db).accounts, id@, acc)
            }),
            !first_with_email(old(db).accounts.records(), email_normalised@, None) ==> {
                &&& final(db).accounts.keys() == old(db).accounts.keys() || !ids_are_keys(old(db).accounts)
                &&& match r {
                    Ok(acc) => acc.email_normalised@ == email_normalised@ && exists|a: Account|
                        #[trigger] first_with_email(old(db).accounts.records(), email_normalised@, Some(a)) && acc.id == a.id,
                    Err(e) => e == Error::OperationFailed && pending is None && *final(db) == *old(db),
                }
            },
    {
        let ghost before = db.accounts;
        proof {
            db.accounts.lemma_lengths();
        }
        let existing = match db.fetch_account_by_normalised_email(email_normalised.as_str()) {
            Ok(found) => found,
            Err(_) => None,
        };
        match existing {
            Some(account) => {
                let mut account = account;
                let ghost a0 = account;
                let ghost ks = before.keys();
                let ghost rs = before.records();
                let ghost i0 = choose|k: int|
                    0 <= k < rs.len() && (|a: Account| a.email_normalised@ == email_normalised@)(#[trigger] rs[k])
                        && a0.model() == rs[k].model() && forall|j: int|
                        0 <= j < k ==> !(|a: Account| a.email_normalised@ == email_normalised@)(#[trigger] rs[j]);
                proof {
                    assert(first_with_email(rs, email_normalised@, Some(a0)));
                    assert(rs[i0].email_normalised@ == email_normalised@);
                    assert(a0.email_normalised@ == rs[i0].model().email_normalised@);
                    assert(a0.id@ == rs[i0].model().id@);
                    assert(!first_with_email(rs, email_normalised@, None));
                }
                let res = if let EmailVerification::Pending { .. } = &account.verification {
                    account.set_email_verification(db, pending)
                } else {
                    account.set_password_reset(db, pending)
                };
                proof {
                    if res is Ok {
                        lemma_save_holds_email(before, db.accounts, account);
                        if ids_are_keys(before) {
                            assert(ks[i0] == rs[i0].id@);
                            assert(ks.contains(account.id@));
                        }
                        if ids_are_keys(before) && emails_unique(rs) {
                            assert forall|i: int|
                                0 <= i < ks.len() && #[trigger] ks[i] != account.id@ implies rs[i].email_normalised@
                                    != account.email_normalised@ by {
                                if rs[i].email_normalised@ == account.email_normalised@ {
                                    assert(i != i0);
                                    if i < i0 {
                                        assert(rs[i].email_normalised@ != rs[i0].email_normalised@);
                                    } else {
                                        assert(rs[i0].email_normalised@ != rs[i].email_normalised@);
                                    }
                                }
                            }
                            lemma_save_keeps_emails_unique(before, db.accounts, account);
                        }
                    } else {
                        assert(holds_email(rs, email_normalised@)) by {
                            assert(rs[i0].email_normalised@ == email_normalised@);
                        }
                    }
                }
                match res {
                    Ok(_) => Ok(account),
                    Err(e) => Err(e),
                }
            },
            None => {
                let mut account = Account::new_verified(id, email, email_normalised, password_hash);
                let _ = account.set_email_verification(db, pending);
                proof {
                    lemma_save_holds_email(before, db.accounts, account);
                    let ks = before.keys();
                    if ids_are_keys(before) && emails_unique(before.records()) {
                        assert forall|i: int|
                            0 <= i < ks.len() && #[trigger] ks[i] != account.id@ implies before.records()[i].email_normalised@
                                != account.email_normalised@ by {
                            assert(!(|a: Account| a.email_normalised@ == email_normalised@)(before.records()[i]));
                        }
                        lemma_save_keeps_emails_unique(before, db.accounts, account);
                    }
                }
                Ok(account)
            },
        }
    }
}

} // verus!

//! Moderation records: audit log entries, cases, case comments and comments
//! on arbitrary objects, with the partial forms used to edit them.

use vstd::prelude::*;
use crate::text::{views, lemma_views_push, opt_view, opt_str_view, owned_opt, string_of_chars, chars_of};
use crate::subscriptions::find_string;
use crate::timestamp::now_iso8601_short;

verus! {

/// Whether `c` belongs to Crockford's base32 alphabet
/// (`0123456789ABCDEFGHJKMNPQRSTVWXYZ`).
pub open spec fn is_crockford(c: char) -> bool {
    ('0' <= c && c <= '9') || ('A' <= c && c <= 'Z' && c != 'I' && c != 'L' && c != 'O' && c != 'U')
}

/// Whether `s` has the shape of a ULID in text form.
pub open spec fn is_ulid_text(s: Seq<char>) -> bool {
    s.len() == 26 && forall|i: int| 0 <= i < 26 ==> is_crockford(#[trigger] s[i])
}

/// A fresh ULID in its canonical text form (`ulid::Ulid::new().to_string()`).
/// The ULID is made from the clock and from chance, so nothing is stated of
/// which one it is; the crate encodes every ULID as 26 characters of
/// Crockford's base32 alphabet, and that shape is what the contract states.
#[verifier::external_body]
fn new_ulid() -> (r: String)
    ensures
        is_ulid_text(r@),
{
    ulid::Ulid::new().to_string()
}

/// An entry of the moderation audit log.
pub struct AdminAuditItem {
    /// The audit item ID
    pub id: String,
    /// The moderator who performed the action
    pub mod_id: String,
    /// The action performed (previously 'permission')
    pub action: String,
    /// The relevant case ID, if applicable
    pub case_id: Option<String>,
    /// The object the action was taken against, if applicable
    pub target_id: Option<String>,
    /// The context of the action, if applicable (eg. search phrases)
    pub context: Option<String>,
}

impl AdminAuditItem {
    /// An audit item with the given id and contents.
    pub fn with_id(
        id: String,
        mod_id: &str,
        action: &str,
        case_id: Option<&str>,
        target_id: Option<&str>,
        context: Option<&str>,
    ) -> (r: AdminAuditItem)
        ensures
            r.id@ == id@,
            r.mod_id@ == mod_id@,
            r.action@ == action@,
            opt_view(r.case_id) == opt_str_view(case_id),
            opt_view(r.target_id) == opt_str_view(target_id),
            opt_view(r.context) == opt_str_view(context),
    {
        AdminAuditItem {
            id,
            mod_id: mod_id.to_owned(),
            action: action.to_owned(),
            case_id: owned_opt(case_id),
            target_id: owned_opt(target_id),
            context: owned_opt(context),
        }
    }

    /// A new audit item under a fresh ULID.
    pub fn new(
        mod_id: &str,
        action: &str,
        case_id: Option<&str>,
        target_id: Option<&str>,
        context: Option<&str>,
    ) -> (r: AdminAuditItem)
        ensures
            is_ulid_text(r.id@),
            r.mod_id@ == mod_id@,
            r.action@ == action@,
            opt_view(r.case_id) == opt_str_view(case_id),
            opt_view(r.target_id) == opt_str_view(target_id),
            opt_view(r.context) == opt_str_view(context),
    {
        Self::with_id(new_ulid(), mod_id, action, case_id, target_id, context)
    }

    /// A field-by-field copy.
    pub fn duplicate(&self) -> (r: AdminAuditItem)
        ensures
            r == *self,
    {
        AdminAuditItem {
            id: self.id.clone(),
            mod_id: self.mod_id.clone(),
            action: self.action.clone(),
            case_id: self.case_id.clone(),
            target_id: self.target_id.clone(),
            context: self.context.clone(),
        }
    }
}

/// A moderation case.
pub struct AdminCase {
    /// The case ID
    pub id: String,
    /// The case Short ID
    pub short_id: String,
    /// The owner of the case
    pub owner_id: String,
    /// The title of the case
    pub title: String,
    /// The status of the case (open/closed)
    pub status: String,
    /// When the case was closed, in iso8601
    pub closed_at: Option<String>,
    /// The tags for the case
    pub tags: Vec<String>,
}

/// The fields of a case to overwrite; `None` leaves a field as it is.
pub struct PartialAdminCase {
    pub id: Option<String>,
    pub short_id: Option<String>,
    pub owner_id: Option<String>,
    pub title: Option<String>,
    pub status: Option<String>,
    pub closed_at: Option<String>,
    pub tags: Option<Vec<String>>,
}

/// The last seven characters of `s`.
pub open spec fn last_seven(s: Seq<char>) -> Seq<char> {
    s.subrange(s.len() - 7, s.len() as int)
}

/// Tags of `a` followed by those of `b` that `a` does not hold.
pub open spec fn merged_tags(a: Seq<Seq<char>>, b: Seq<Seq<char>>) -> Seq<Seq<char>> {
    a + b.filter(|t: Seq<char>| !a.contains(t))
}

/// The status a new case starts in.
pub open spec fn open_status() -> Seq<char> {
    seq!['O', 'p', 'e', 'n']
}

/// The string `Open`.
fn open_status_text() -> (r: String)
    ensures
        r@ == open_status(),
{
    let v: Vec<char> = vec!['O', 'p', 'e', 'n'];
    proof {
        assert(v@ =~= open_status());
    }
    string_of_chars(&v)
}

/// The last seven characters of a string.
fn last_seven_of(s: &str) -> (r: String)
    requires
        s@.len() >= 7,
    ensures
        r@ == last_seven(s@),
{
    let cs = chars_of(s);
    let n = cs.len();
    let mut tail: Vec<char> = Vec::new();
    let mut i: usize = n - 7;
    while i < n
        invariant
            cs@ == s@,
            n == s@.len(),
            n >= 7,
            n - 7 <= i <= n,
            tail@ == s@.subrange(n - 7, i as int),
        decreases n - i,
    {
        tail.push(cs[i]);
        proof {
            assert(tail@ =~= s@.subrange(n - 7, i + 1));
        }
        i = i + 1;
    }
    string_of_chars(&tail)
}

impl AdminCase {
    /// A new open case with the given id: its short id is the last seven
    /// characters of the id, it has no tags and is not closed.
    pub fn with_id(id: String, owner_id: &str, title: &str) -> (r: AdminCase)
        requires
            id@.len() >= 7,
        ensures
            r.id@ == id@,
            r.short_id@ == last_seven(id@),
            r.owner_id@ == owner_id@,
            r.title@ == title@,
            r.status@ == open_status(),
            r.closed_at is None,
            r.tags@.len() == 0,
    {
        let short_id = last_seven_of(id.as_str());
        AdminCase {
            id,
            short_id,
            owner_id: owner_id.to_owned(),
            title: title.to_owned(),
            status: open_status_text(),
            closed_at: None,
            tags: Vec::new(),
        }
    }

    /// A new open case under a fresh ULID.
    pub fn new(owner_id: &str, title: &str) -> (r: AdminCase)
        ensures
            is_ulid_text(r.id@),
            r.short_id@ == last_seven(r.id@),
            r.owner_id@ == owner_id@,
            r.title@ == title@,
            r.status@ == open_status(),
            r.closed_at is None,
            r.tags@.len() == 0,
    {
        Self::with_id(new_ulid(), owner_id, title)
    }

    /// The case's tags followed by those of `other` that the case does not
    /// hold yet, in their order.
    pub fn merge_tags(&self, other: &[String]) -> (r: Vec<String>)
        ensures
            views(r@) == merged_tags(views(self.tags@), views(other@)),
    {
        let mut resp: Vec<String> = self.tags.clone();
        let ghost a = views(self.tags@);
        let ghost b = views(other@);
        let mut i: usize = 0;
        proof {
            reveal(Seq::filter);
            assert(b.take(0).filter(|t: Seq<char>| !a.contains(t)) =~= Seq::<Seq<char>>::empty());
            assert(views(resp@) =~= a + b.take(0).filter(|t: Seq<char>| !a.contains(t)));
        }
        while i < other.len()
            invariant
                i <= other@.len(),
                a == views(self.tags@),
                b == views(other@),
                views(resp@) == a + b.take(i as int).filter(|t: Seq<char>| !a.contains(t)),
            decreases other@.len() - i,
        {
            let p = &other[i];
            let found = find_string(&self.tags, p);
            proof {
                reveal(Seq::filter);
                assert(b.take(i + 1).drop_last() =~= b.take(i as int));
                assert(b.take(i + 1).last() == p@);
                assert(found is None <==> !a.contains(p@)) by {
                    if a.contains(p@) {
                        let j = choose|j: int| 0 <= j < a.len() && a[j] == p@;
                        assert(self.tags@[j]@ == p@);
                    }
                    if let Some(k) = found {
                        assert(a[k as int] == p@);
                    }
                }
            }
            if found.is_none() {
                let ghost before = resp@;
                resp.push(p.clone());
                proof {
                    lemma_views_push(before, *p);
                }
            }
            i = i + 1;
        }
        proof {
            assert(b.take(other@.len() as int) =~= b);
        }
        resp
    }

    /// Overwrites every field that `partial` holds a value for.
    pub fn apply_options(&mut self, partial: PartialAdminCase)
        ensures
            final(self).id == (match partial.id { Some(v) => v, None => old(self).id }),
            final(self).short_id == (match partial.short_id { Some(v) => v, None => old(self).short_id }),
            final(self).owner_id == (match partial.owner_id { Some(v) => v, None => old(self).owner_id }),
            final(self).title == (match partial.title { Some(v) => v, None => old(self).title }),
            final(self).status == (match partial.status { Some(v) => v, None => old(self).status }),
            final(self).closed_at == (match partial.closed_at { Some(v) => Some(v), None => old(self).closed_at }),
            final(self).tags == (match partial.tags { Some(v) => v, None => old(self).tags }),
    {
        if let Some(v) = partial.id {
            self.id = v;
        }
        if let Some(v) = partial.short_id {
            self.short_id = v;
        }
        if let Some(v) = partial.owner_id {
            self.owner_id = v;
        }
        if let Some(v) = partial.title {
            self.title = v;
        }
        if let Some(v) = partial.status {
            self.status = v;
        }
        if let Some(v) = partial.closed_at {
            self.closed_at = Some(v);
        }
        if let Some(v) = partial.tags {
            self.tags = v;
        }
    }

    /// A field-by-field copy.
    pub fn duplicate(&self) -> (r: AdminCase)
        ensures
            r.id == self.id,
            r.short_id == self.short_id,
            r.owner_id == self.owner_id,
            r.title == self.title,
            r.status == self.status,
            r.closed_at == self.closed_at,
            r.tags@ == self.tags@,
    {
        AdminCase {
            id: self.id.clone(),
            short_id: self.short_id.clone(),
            owner_id: self.owner_id.clone(),
            title: self.title.clone(),
            status: self.status.clone(),
            closed_at: self.closed_at.clone(),
            tags: self.tags.clone(),
        }
    }
}

impl PartialAdminCase {
    /// A field-by-field copy.
    pub fn duplicate(&self) -> (r: PartialAdminCase)
        ensures
            r.id == self.id && r.short_id == self.short_id && r.owner_id == self.owner_id,
            r.title == self.title && r.status == self.status && r.closed_at == self.closed_at,
            match (r.tags, self.tags) {
                (Some(a), Some(b)) => a@ == b@,
                (None, None) => true,
                _ => false,
            },
    {
        PartialAdminCase {
            id: self.id.clone(),
            short_id: self.short_id.clone(),
            owner_id: self.owner_id.clone(),
            title: self.title.clone(),
            status: self.status.clone(),
            closed_at: self.closed_at.clone(),
            tags: match &self.tags {
                Some(t) => Some(t.clone()),
                None => None,
            },
        }
    }

    /// A partial case that changes nothing.
    pub fn new() -> (r: PartialAdminCase)
        ensures
            r.id is None && r.short_id is None && r.owner_id is None && r.title is None,
            r.status is None && r.closed_at is None && r.tags is None,
    {
        PartialAdminCase {
            id: None,
            short_id: None,
            owner_id: None,
            title: None,
            status: None,
            closed_at: None,
            tags: None,
        }
    }
}

/// A comment on a moderation case.
pub struct AdminCaseComment {
    /// The comment ID
    pub id: String,
    /// The ID of the case this comment is attached to
    pub case_id: String,
    /// The author ID
    pub user_id: String,
    /// When the comment was edited, if applicable, in iso8601
    pub edited_at: Option<String>,
    /// The content
    pub content: String,
}

/// The fields of a case comment to overwrite; `None` leaves a field as it is.
pub struct PartialAdminCaseComment {
    pub id: Option<String>,
    pub case_id: Option<String>,
    pub user_id: Option<String>,
    pub edited_at: Option<String>,
    pub content: Option<String>,
}

impl AdminCaseComment {
    /// A comment with the given id that was never edited.
    pub fn with_id(id: String, case_id: &str, user_id: &str, content: &str) -> (r: AdminCaseComment)
        ensures
            r.id@ == id@,
            r.case_id@ == case_id@,
            r.user_id@ == user_id@,
            r.edited_at is None,
            r.content@ == content@,
    {
        AdminCaseComment {
            id,
            case_id: case_id.to_owned(),
            user_id: user_id.to_owned(),
            edited_at: None,
            content: content.to_owned(),
        }
    }

    /// A new comment under a fresh ULID.
    pub fn new(case_id: &str, user_id: &str, content: &str) -> (r: AdminCaseComment)
        ensures
            is_ulid_text(r.id@),
            r.case_id@ == case_id@,
            r.user_id@ == user_id@,
            r.edited_at is None,
            r.content@ == content@,
    {
        Self::with_id(new_ulid(), case_id, user_id, content)
    }

    /// Replaces the content and records `edited_at` as the time of the edit.
    pub fn edit_at(&mut self, content: &str, edited_at: String)
        ensures
            final(self).content@ == content@,
            opt_view(final(self).edited_at) == Some(edited_at@),
            final(self).id == old(self).id,
            final(self).case_id == old(self).case_id,
            final(self).user_id == old(self).user_id,
    {
        self.content = content.to_owned();
        self.edited_at = Some(edited_at);
    }

    /// Edit the comment, updating the edited_at time as well
    pub fn edit(&mut self, content: &str)
        ensures
            final(self).content@ == content@,
            final(self).edited_at is Some,
            final(self).id == old(self).id,
            final(self).case_id == old(self).case_id,
            final(self).user_id == old(self).user_id,
    {
        self.edit_at(content, now_iso8601_short());
    }

    /// Overwrites every field that `partial` holds a value for.
    pub fn apply_options(&mut self, partial: PartialAdminCaseComment)
        ensures
            final(self).id == (match partial.id { Some(v) => v, None => old(self).id }),
            final(self).case_id == (match partial.case_id { Some(v) => v, None => old(self).case_id }),
            final(self).user_id == (match partial.user_id { Some(v) => v, None => old(self).user_id }),
            final(self).edited_at == (match partial.edited_at { Some(v) => Some(v), None => old(self).edited_at }),
            final(self).content == (match partial.content { Some(v) => v, None => old(self).content }),
    {
        if let Some(v) = partial.id {
            self.id = v;
        }
        if let Some(v) = partial.case_id {
            self.case_id = v;
        }
        if let Some(v) = partial.user_id {
            self.user_id = v;
        }
        if let Some(v) = partial.edited_at {
            self.edited_at = Some(v);
        }
        if let Some(v) = partial.content {
            self.content = v;
        }
    }

    /// A field-by-field copy.
    pub fn duplicate(&self) -> (r: AdminCaseComment)
        ensures
            r == *self,
    {
        AdminCaseComment {
            id: self.id.clone(),
            case_id: self.case_id.clone(),
            user_id: self.user_id.clone(),
            edited_at: self.edited_at.clone(),
            content: self.content.clone(),
        }
    }
}

impl PartialAdminCaseComment {
    /// A field-by-field copy.
    pub fn duplicate(&self) -> (r: PartialAdminCaseComment)
        ensures
            r == *self,
    {
        PartialAdminCaseComment {
            id: self.id.clone(),
            case_id: self.case_id.clone(),
            user_id: self.user_id.clone(),
            edited_at: self.edited_at.clone(),
            content: self.content.clone(),
        }
    }

    /// A partial comment that changes nothing.
    pub fn new() -> (r: PartialAdminCaseComment)
        ensures
            r.id is None && r.case_id is None && r.user_id is None,
            r.edited_at is None && r.content is None,
    {
        PartialAdminCaseComment { id: None, case_id: None, user_id: None, edited_at: None, content: None }
    }

    /// Sets the content and records `edited_at` as the time of the edit.
    pub fn edit_at(&mut self, content: &str, edited_at: String)
        ensures
            opt_view(final(self).content) == Some(content@),
            opt_view(final(self).edited_at) == Some(edited_at@),
            final(self).id == old(self).id,
            final(self).case_id == old(self).case_id,
            final(self).user_id == old(self).user_id,
    {
        self.content = Some(content.to_owned());
        self.edited_at = Some(edited_at);
    }

    /// Edit the comment, updating the edited_at time as well
    pub fn edit(&mut self, content: &str)
        ensures
            opt_view(final(self).content) == Some(content@),
            final(self).edited_at is Some,
            final(self).id == old(self).id,
            final(self).case_id == old(self).case_id,
            final(self).user_id == old(self).user_id,
    {
        self.edit_at(content, now_iso8601_short());
    }
}

/// A comment on some object (a user, a server, a message, a report, ...),
/// or a system message recording a moderation action.
pub struct AdminComment {
    /// The comment ID
    pub id: String,
    /// The Object this comment is attached to
    pub object_id: String,
    /// The ID of the case this comment is attached to, if applicable
    pub case_id: Option<String>,
    /// The author ID
    pub user_id: String,
    /// When the comment was edited, if applicable, in iso8601
    pub edited_at: Option<String>,
    /// The content, if not a system event
    pub content: Option<String>,
    /// The system event that occurred, if applicable
    pub system_message: Option<String>,
    /// The system message target
    pub system_message_target: Option<String>,
    /// The system message raw context
    pub system_message_context: Option<String>,
}

/// The fields of a comment to overwrite; `None` leaves a field as it is.
pub struct PartialAdminComment {
    pub id: Option<String>,
    pub object_id: Option<String>,
    pub case_id: Option<String>,
    pub user_id: Option<String>,
    pub edited_at: Option<String>,
    pub content: Option<String>,
    pub system_message: Option<String>,
    pub system_message_target: Option<String>,
    pub system_message_context: Option<String>,
}

impl AdminComment {
    /// A plain comment with the given id that was never edited.
    pub fn with_id(id: String, object_id: &str, user_id: &str, content: &str, case_id: Option<&str>) -> (r: AdminComment)
        ensures
            r.id@ == id@,
            r.object_id@ == object_id@,
            opt_view(r.case_id) == opt_str_view(case_id),
            r.user_id@ == user_id@,
            r.edited_at is None,
            opt_view(r.content) == Some(content@),
            r.system_message is None,
            r.system_message_target is None,
            r.system_message_context is None,
    {
        AdminComment {
            id,
            object_id: object_id.to_owned(),
            case_id: owned_opt(case_id),
            user_id: user_id.to_owned(),
            edited_at: None,
            content: Some(content.to_owned()),
            system_message: None,
            system_message_target: None,
            system_message_context: None,
        }
    }

    /// A new plain comment under a fresh ULID.
    pub fn new(object_id: &str, user_id: &str, content: &str, case_id: Option<&str>) -> (r: AdminComment)
        ensures
            is_ulid_text(r.id@),
            r.object_id@ == object_id@,
            opt_view(r.case_id) == opt_str_view(case_id),
            r.user_id@ == user_id@,
            r.edited_at is None,
            opt_view(r.content) == Some(content@),
            r.system_message is None,
            r.system_message_target is None,
            r.system_message_context is None,
    {
        Self::with_id(new_ulid(), object_id, user_id, content, case_id)
    }

    /// A system message with the given id: `system_message_kind` is the
    /// serialised kind of the moderation action.
    pub fn system_message_with_id(
        id: String,
        object_id: &str,
        user_id: &str,
        case_id: &str,
        system_message_kind: String,
        context: Option<&str>,
        target: &str,
    ) -> (r: AdminComment)
        ensures
            r.id@ == id@,
            r.object_id@ == object_id@,
            opt_view(r.case_id) == Some(case_id@),
            r.user_id@ == user_id@,
            r.edited_at is None,
            r.content is None,
            opt_view(r.system_message) == Some(system_message_kind@),
            opt_view(r.system_message_context) == opt_str_view(context),
            opt_view(r.system_message_target) == Some(target@),
    {
        AdminComment {
            id,
            object_id: object_id.to_owned(),
            case_id: Some(case_id.to_owned()),
            user_id: user_id.to_owned(),
            edited_at: None,
            content: None,
            system_message: Some(system_message_kind),
            system_message_target: Some(target.to_owned()),
            system_message_context: owned_opt(context),
        }
    }

    /// A new system message under a fresh ULID.
    pub fn new_system_message(
        object_id: &str,
        user_id: &str,
        case_id: &str,
        system_message_kind: String,
        context: Option<&str>,
        target: &str,
    ) -> (r: AdminComment)
        ensures
            is_ulid_text(r.id@),
            r.object_id@ == object_id@,
            opt_view(r.case_id) == Some(case_id@),
            r.user_id@ == user_id@,
            r.edited_at is None,
            r.content is None,
            opt_view(r.system_message) == Some(system_message_kind@),
            opt_view(r.system_message_context) == opt_str_view(context),
            opt_view(r.system_message_target) == Some(target@),
    {
        Self::system_message_with_id(new_ulid(), object_id, user_id, case_id, system_message_kind, context, target)
    }

    /// Replaces the content and records `edited_at` as the time of the edit.
    pub fn edit_at(&mut self, content: &str, edited_at: String)
        ensures
            opt_view(final(self).content) == Some(content@),
            opt_view(final(self).edited_at) == Some(edited_at@),
            final(self).id == old(self).id,
            final(self).object_id == old(self).object_id,
            final(self).case_id == old(self).case_id,
            final(self).user_id == old(self).user_id,
            final(self).system_message == old(self).system_message,
            final(self).system_message_target == old(self).system_message_target,
            final(self).system_message_context == old(self).system_message_context,
    {
        self.content = Some(content.to_owned());
        self.edited_at = Some(edited_at);
    }

    /// Edit the comment, updating the edited_at time as well
    pub fn edit(&mut self, content: &str)
        ensures
            opt_view(final(self).content) == Some(content@),
            final(self).edited_at is Some,
            final(self).id == old(self).id,
            final(self).object_id == old(self).object_id,
            final(self).case_id == old(self).case_id,
            final(self).user_id == old(self).user_id,
            final(self).system_message == old(self).system_message,
            final(self).system_message_target == old(self).system_message_target,
            final(self).system_message_context == old(self).system_message_context,
    {
        self.edit_at(content, now_iso8601_short());
    }

    /// Overwrites every field that `partial` holds a value for.
    pub fn apply_options(&mut self, partial: PartialAdminComment)
        ensures
            final(self).id == (match partial.id { Some(v) => v, None => old(self).id }),
            final(self).object_id == (match partial.object_id { Some(v) => v, None => old(self).object_id }),
            final(self).case_id == (match partial.case_id { Some(v) => Some(v), None => old(self).case_id }),
            final(self).user_id == (match partial.user_id { Some(v) => v, None => old(self).user_id }),
            final(self).edited_at == (match partial.edited_at { Some(v) => Some(v), None => old(self).edited_at }),
            final(self).content == (match partial.content { Some(v) => Some(v), None => old(self).content }),
            final(self).system_message == (match partial.system_message { Some(v) => Some(v), None => old(self).system_message }),
            final(self).system_message_target == (match partial.system_message_target { Some(v) => Some(v), None => old(self).system_message_target }),
            final(self).system_message_context == (match partial.system_message_context { Some(v) => Some(v), None => old(self).system_message_context }),
    {
        if let Some(v) = partial.id {
            self.id = v;
        }
        if let Some(v) = partial.object_id {
            self.object_id = v;
        }
        if let Some(v) = partial.case_id {
            self.case_id = Some(v);
        }
        if let Some(v) = partial.user_id {
            self.user_id = v;
        }
        if let Some(v) = partial.edited_at {
            self.edited_at = Some(v);
        }
        if let Some(v) = partial.content {
            self.content = Some(v);
        }
        if let Some(v) = partial.system_message {
            self.system_message = Some(v);
        }
        if let Some(v) = partial.system_message_target {
            self.system_message_target = Some(v);
        }
        if let Some(v) = partial.system_message_context {
            self.system_message_context = Some(v);
        }
    }

    /// A field-by-field copy.
    pub fn duplicate(&self) -> (r: AdminComment)
        ensures
            r == *self,
    {
        AdminComment {
            id: self.id.clone(),
            object_id: self.object_id.clone(),
            case_id: self.case_id.clone(),
            user_id: self.user_id.clone(),
            edited_at: self.edited_at.clone(),
            content: self.content.clone(),
            system_message: self.system_message.clone(),
            system_message_target: self.system_message_target.clone(),
            system_message_context: self.system_message_context.clone(),
        }
    }
}

impl PartialAdminComment {
    /// A field-by-field copy.
    pub fn duplicate(&self) -> (r: PartialAdminComment)
        ensures
            r == *self,
    {
        PartialAdminComment {
            id: self.id.clone(),
            object_id: self.object_id.clone(),
            case_id: self.case_id.clone(),
            user_id: self.user_id.clone(),
            edited_at: self.edited_at.clone(),
            content: self.content.clone(),
            system_message: self.system_message.clone(),
            system_message_target: self.system_message_target.clone(),
            system_message_context: self.system_message_context.clone(),
        }
    }

    /// A partial comment that changes nothing.
    pub fn new() -> (r: PartialAdminComment)
        ensures
            r.id is None && r.object_id is None && r.case_id is None && r.user_id is None,
            r.edited_at is None && r.content is None && r.system_message is None,
            r.system_message_target is None && r.system_message_context is None,
    {
        PartialAdminComment {
            id: None,
            object_id: None,
            case_id: None,
            user_id: None,
            edited_at: None,
            content: None,
            system_message: None,
            system_message_target: None,
            system_message_context: None,
        }
    }

    /// Sets the content and records `edited_at` as the time of the edit.
    pub fn edit_at(&mut self, content: &str, edited_at: String)
        ensures
            opt_view(final(self).content) == Some(content@),
            opt_view(final(self).edited_at) == Some(edited_at@),
            final(self).id == old(self).id,
            final(self).object_id == old(self).object_id,
            final(self).case_id == old(self).case_id,
            final(self).user_id == old(self).user_id,
            final(self).system_message == old(self).system_message,
            final(self).system_message_target == old(self).system_message_target,
            final(self).system_message_context == old(self).system_message_context,
    {
        self.content = Some(content.to_owned());
        self.edited_at = Some(edited_at);
    }

    /// Edit the comment, updating the edited_at time as well
    pub fn edit(&mut self, content: &str)
        ensures
            opt_view(final(self).content) == Some(content@),
            final(self).edited_at is Some,
            final(self).id == old(self).id,
            final(self).object_id == old(self).object_id,
            final(self).case_id == old(self).case_id,
            final(self).user_id == old(self).user_id,
            final(self).system_message == old(self).system_message,
            final(self).system_message_target == old(self).system_message_target,
            final(self).system_message_context == old(self).system_message_context,
    {
        self.edit_at(content, now_iso8601_short());
    }
}

} // verus!

//! Database migrations: which migration steps a database at some revision
//! still needs, the revision it ends at, and the computations that steps
//! make on the documents they rewrite.

use vstd::prelude::*;
use crate::reference_db::ReferenceDb;
use crate::text::{views, lemma_views_push, push_char};
use crate::gateway::is_subscribed;
use unicode_segmentation::UnicodeSegmentation;
use rand::seq::SliceRandom;
use crate::subscriptions::find_string;

verus! {

/// The revision a freshly created database starts at; one past the last
/// migration step.
pub const LATEST_REVISION: i32 = 42;

/// The revisions of the migration steps, in the order they run. (Two steps
/// share revision 25.)
pub open spec fn step_revisions() -> Seq<i32> {
    seq![
        0i32, 1, 2, 3, 4, 5, 6, 7, 8, 9, 10, 11, 12, 13, 14, 15, 16, 17, 18, 19, 20, 21, 22, 23, 24, 25,
        25, 26, 27, 28, 30, 31, 32, 40, 41,
    ]
}

/// The steps a database at `revision` runs: each step whose revision is at
/// least the database's, in order.
pub open spec fn pending_spec(revision: i32) -> Seq<i32> {
    step_revisions().filter(|s: i32| revision <= s)
}

/// The migration steps' revisions.
fn step_list() -> (r: Vec<i32>)
    ensures
        r@ == step_revisions(),
{
    let r: Vec<i32> = vec![
        0, 1, 2, 3, 4, 5, 6, 7, 8, 9, 10, 11, 12, 13, 14, 15, 16, 17, 18, 19, 20, 21, 22, 23, 24, 25,
        25, 26, 27, 28, 30, 31, 32, 40, 41,
    ];
    proof {
        assert(r@ =~= step_revisions());
    }
    r
}

/// The steps a database at `revision` runs, in order.
pub fn pending_migrations(revision: i32) -> (r: Vec<i32>)
    ensures
        r@ == pending_spec(revision),
{
    let steps = step_list();
    let ghost s = steps@;
    let ghost p = |x: i32| revision <= x;
    let mut out: Vec<i32> = Vec::new();
    let mut i: usize = 0;
    while i < steps.len()
        invariant
            s == steps@,
            p == (|x: i32| revision <= x),
            i <= s.len(),
            out@ == s.take(i as int).filter(p),
        decreases s.len() - i,
    {
        proof {
            reveal(Seq::filter);
            assert(s.take(i + 1).drop_last() =~= s.take(i as int));
            assert(s.take(i + 1).last() == s[i as int]);
        }
        if revision <= steps[i] {
            out.push(steps[i]);
        }
        i = i + 1;
    }
    proof {
        assert(s.take(s.len() as int) =~= s);
    }
    out
}

/// The revision a database is at after migrating from `revision`.
pub fn final_revision(revision: i32) -> (r: i32)
    ensures
        r == if revision < LATEST_REVISION { LATEST_REVISION } else { revision },
{
    if revision < LATEST_REVISION {
        LATEST_REVISION
    } else {
        revision
    }
}

/// A database migrated once has nothing left to run: migrating it again
/// (or migrating a freshly created one) runs no step.
pub proof fn lemma_migrate_twice(revision: i32)
    ensures
        pending_spec(if revision < LATEST_REVISION { LATEST_REVISION } else { revision }).len() == 0,
        pending_spec(LATEST_REVISION).len() == 0,
{
    let s = step_revisions();
    let f = if revision < LATEST_REVISION { LATEST_REVISION } else { revision };
    assert forall|i: int| 0 <= i < s.len() implies s[i] < LATEST_REVISION by {
    }
    lemma_filter_none(s, |x: i32| f <= x);
    lemma_filter_none(s, |x: i32| LATEST_REVISION <= x);
}

/// Filtering out every element leaves nothing.
proof fn lemma_filter_none(s: Seq<i32>, p: spec_fn(i32) -> bool)
    requires
        forall|i: int| 0 <= i < s.len() ==> !p(s[i]),
    ensures
        s.filter(p).len() == 0,
    decreases s.len(),
{
    reveal(Seq::filter);
    if s.len() > 0 {
        lemma_filter_none(s.drop_last(), p);
    }
}

/// What migrating a database server does: run the pending steps on the
/// existing database, or create it from scratch.
pub enum MigratePlan {
    Migrate,
    Create,
}

/// Migrate when the database exists among `names`, create it otherwise.
pub fn migrate_plan(names: &Vec<String>, database: &String) -> (r: MigratePlan)
    ensures
        (r is Migrate) == views(names@).contains(database@),
{
    if is_subscribed(names, database) {
        MigratePlan::Migrate
    } else {
        MigratePlan::Create
    }
}

/// Whether the moderation collections must be set up: the admin API is
/// enabled and `admin_audits` is not among the collections yet.
pub fn needs_admin_setup(admin_api_enabled: bool, collections: &Vec<String>) -> (r: bool)
    ensures
        r == (admin_api_enabled && !views(collections@).contains(seq!['a', 'd', 'm', 'i', 'n', '_', 'a', 'u', 'd', 'i', 't', 's'])),
{
    let name = String::from_str("admin_audits");
    proof {
        reveal_strlit("admin_audits");
        assert(name@ =~= seq!['a', 'd', 'm', 'i', 'n', '_', 'a', 'u', 'd', 'i', 't', 's']);
    }
    admin_api_enabled && !is_subscribed(collections, &name)
}

/// Running migrations on a database.
pub trait AbstractMigrations {
    /// Migrate the database
    fn migrate_database(&self) -> Result<(), ()>;
}

impl AbstractMigrations for ReferenceDb {
    /// The reference database keeps no schema: there is nothing to migrate.
    fn migrate_database(&self) -> (r: Result<(), ()>)
        ensures
            r is Ok,
    {
        Ok(())
    }
}

// ---------------------------------------------------------------------
// Revision 13: wipe legacy permission values.

/// The default permissions of every server after the wipe.
pub const SERVER_DEFAULT_PERMISSIONS: u64 = 4000323584u64;

/// The bit of the "send message" permission.
pub const SEND_MESSAGE_BIT: u64 = 4194304u64;

/// Whether a legacy channel permission value grants sending messages
/// (bit `0x2`).
pub open spec fn grants_send(value: i32) -> bool {
    (value as u32) & 2u32 == 2u32
}

/// Whether a legacy channel permission value grants sending messages.
pub fn legacy_grants_send(value: i32) -> (r: bool)
    ensures
        r == grants_send(value),
{
    (value as u32) & 2u32 == 2u32
}

/// A server's new default permissions: the defaults, without "send
/// message" unless its legacy channel permissions granted it.
pub fn server_default_permissions(has_send: bool) -> (r: i64)
    ensures
        r == (if has_send { 4000323584i64 } else { 3996129280i64 }),
{
    let base: u64 = SERVER_DEFAULT_PERMISSIONS;
    let flag: u64 = if has_send { 0 } else { SEND_MESSAGE_BIT };
    let v = base ^ flag;
    proof {
        if has_send {
            assert(4000323584u64 ^ 0u64 == 4000323584u64) by (bit_vector);
        } else {
            assert(4000323584u64 ^ 4194304u64 == 3996129280u64) by (bit_vector);
        }
    }
    v as i64
}

/// Whether a server's legacy default permissions granted sending messages
/// in channels: the second entry of the list, when it is a 32-bit integer,
/// has bit `0x2`; otherwise not.
pub fn server_had_send(channel_default: Option<i32>) -> (r: bool)
    ensures
        r == (channel_default matches Some(v) && grants_send(v)),
{
    match channel_default {
        Some(v) => legacy_grants_send(v),
        None => false,
    }
}

/// How a channel's permissions are rewritten.
pub struct ChannelPermissionUpdate {
    /// Drop the channel's own default permissions, letting the parent's
    /// fall through.
    pub unset_default: bool,
    /// Block "send message" (allow nothing, deny that bit).
    pub deny_send: bool,
}

/// A channel keeps its parent's permissions unless its legacy default
/// (when it is a 32-bit integer) withheld "send message"; then sending is
/// denied.
pub fn channel_permission_update(default_permissions: Option<i32>) -> (r: ChannelPermissionUpdate)
    ensures
        r.unset_default == !(default_permissions matches Some(v) && !grants_send(v)),
        r.deny_send == !r.unset_default,
{
    let has_send = match default_permissions {
        Some(v) => legacy_grants_send(v),
        None => true,
    };
    ChannelPermissionUpdate { unset_default: has_send, deny_send: !has_send }
}

// ---------------------------------------------------------------------
// Revision 41: role ranks become positions.

/// How many of `s` are below `x`.
pub open spec fn count_below(s: Seq<i64>, x: i64) -> nat
    decreases s.len(),
{
    if s.len() == 0 {
        0
    } else {
        count_below(s.drop_last(), x) + if s.last() < x { 1nat } else { 0nat }
    }
}

/// How many of `s` equal `x`.
pub open spec fn count_equal(s: Seq<i64>, x: i64) -> nat
    decreases s.len(),
{
    if s.len() == 0 {
        0
    } else {
        count_equal(s.drop_last(), x) + if s.last() == x { 1nat } else { 0nat }
    }
}

/// The new rank of the `i`th role: its position when the roles are sorted
/// by rank, roles of equal rank keeping their order.
pub open spec fn new_rank(ranks: Seq<i64>, i: int) -> nat {
    count_below(ranks, ranks[i]) + count_equal(ranks.take(i), ranks[i])
}

/// The new ranks of roles with the given ranks, in the same order.
pub fn renumber_ranks(ranks: &Vec<i64>) -> (r: Vec<i64>)
    requires
        ranks@.len() < i64::MAX,
    ensures
        r@.len() == ranks@.len(),
        forall|i: int| 0 <= i < ranks@.len() ==> r@[i] == new_rank(ranks@, i),
{
    let n = ranks.len();
    let mut out: Vec<i64> = Vec::new();
    let mut i: usize = 0;
    while i < n
        invariant
            n == ranks@.len(),
            n < i64::MAX,
            i <= n,
            out@.len() == i,
            forall|k: int| 0 <= k < i ==> out@[k] == new_rank(ranks@, k),
        decreases n - i,
    {
        let x = ranks[i];
        let mut below: i64 = 0;
        let mut equal_before: i64 = 0;
        let mut j: usize = 0;
        while j < n
            invariant
                n == ranks@.len(),
                n < i64::MAX,
                i < n,
                x == ranks@[i as int],
                j <= n,
                below == count_below(ranks@.take(j as int), x),
                equal_before == count_equal(ranks@.take(if j < i { j as int } else { i as int }), x),
                below <= j,
                equal_before <= j,
            decreases n - j,
        {
            proof {
                assert(ranks@.take(j + 1).drop_last() =~= ranks@.take(j as int));
            }
            if ranks[j] < x {
                below = below + 1;
            }
            if j < i && ranks[j] == x {
                equal_before = equal_before + 1;
            }
            j = j + 1;
        }
        proof {
            assert(ranks@.take(n as int) =~= ranks@);
            lemma_count_bound(ranks@, x);
            lemma_count_equal_prefix(ranks@, x, i as int, n as int);
        }
        out.push(below + equal_before);
        i = i + 1;
    }
    out
}

/// Roles below `b` include those below or equal to any `a < b`.
proof fn lemma_count_monotone(s: Seq<i64>, a: i64, b: i64)
    requires
        a < b,
    ensures
        count_below(s, a) + count_equal(s, a) <= count_below(s, b),
    decreases s.len(),
{
    if s.len() > 0 {
        lemma_count_monotone(s.drop_last(), a, b);
    }
}

/// Counting below, equal and in all covers no more than the roles.
proof fn lemma_count_bound(s: Seq<i64>, x: i64)
    ensures
        count_below(s, x) + count_equal(s, x) <= s.len(),
    decreases s.len(),
{
    if s.len() > 0 {
        lemma_count_bound(s.drop_last(), x);
    }
}

/// A prefix holds no more equal roles than the whole, and strictly fewer
/// when the role right after the prefix is equal.
proof fn lemma_count_equal_prefix(s: Seq<i64>, x: i64, i: int, j: int)
    requires
        0 <= i <= j <= s.len(),
    ensures
        count_equal(s.take(i), x) <= count_equal(s.take(j), x),
        i < j && s[i] == x ==> count_equal(s.take(i), x) < count_equal(s.take(j), x),
    decreases j - i,
{
    if i < j {
        lemma_count_equal_prefix(s, x, i, j - 1);
        assert(s.take(j).drop_last() =~= s.take(j - 1));
        if i < j - 1 && s[i] == x {
        } else if i == j - 1 {
            assert(s.take(j).last() == s[i]);
        }
    }
}

/// The new ranks keep the order of the old ones, give distinct roles
/// distinct ranks, and run from zero to one less than the number of roles.
pub proof fn lemma_renumber_ranks(ranks: Seq<i64>, i: int, j: int)
    requires
        0 <= i < ranks.len(),
        0 <= j < ranks.len(),
    ensures
        new_rank(ranks, i) < ranks.len(),
        ranks[i] < ranks[j] ==> new_rank(ranks, i) < new_rank(ranks, j),
        ranks[i] == ranks[j] && i < j ==> new_rank(ranks, i) < new_rank(ranks, j),
        i != j ==> new_rank(ranks, i) != new_rank(ranks, j),
{
    let x = ranks[i];
    lemma_count_bound(ranks, x);
    lemma_count_equal_prefix(ranks, x, i, ranks.len() as int);
    assert(ranks.take(ranks.len() as int) =~= ranks);
    lemma_count_equal_prefix(ranks, x, i, i);
    if ranks[i] < ranks[j] {
        lemma_count_monotone(ranks, ranks[i], ranks[j]);
    }
    if ranks[j] < ranks[i] {
        lemma_count_equal_prefix(ranks, ranks[j], j, ranks.len() as int);
        lemma_count_monotone(ranks, ranks[j], ranks[i]);
    }
    if ranks[i] == ranks[j] {
        if i < j {
            lemma_count_equal_prefix(ranks, x, i, j);
        } else if j < i {
            lemma_count_equal_prefix(ranks, x, j, i);
        }
    }
}

// ---------------------------------------------------------------------
// Revision 23: usernames and discriminators.

/// The username regex's verdict on `s` (`^(\p{L}|[\d_.-])+$`).
pub uninterp spec fn is_username(s: Seq<char>) -> bool;

/// The extended grapheme clusters of `s`, in order.
pub uninterp spec fn graphemes_of(s: Seq<char>) -> Seq<Seq<char>>;

/// Whether `s` is a valid username: one or more letters, digits, `_`, `.`
/// or `-` (`regex` with `^(\p{L}|[\d_.-])+$`). The contract names the
/// verdict; the pattern is anchored and repeats one or more times, so it
/// refuses the empty string. Which characters count as letters is not
/// stated.
#[verifier::external_body]
fn username_matches(s: &str) -> (r: bool)
    ensures
        r == is_username(s@),
        r ==> s@.len() > 0,
{
    regex::Regex::new(r"^(\p{L}|[\d_.-])+$").unwrap().is_match(s)
}

/// The extended grapheme clusters of `s`
/// (`unicode_segmentation::UnicodeSegmentation::graphemes(s, true)`), in
/// order. The contract names them and says no more of them.
#[verifier::external_body]
fn graphemes(s: &str) -> (r: Vec<String>)
    ensures
        views(r@) == graphemes_of(s@),
{
    s.graphemes(true).map(|g| g.to_string()).collect()
}

/// Characters of the clusters of `gs` that pass the username check,
/// joined in order.
pub open spec fn kept_clusters(gs: Seq<Seq<char>>) -> Seq<char>
    decreases gs.len(),
{
    if gs.len() == 0 {
        Seq::empty()
    } else {
        kept_clusters(gs.drop_last()) + if is_username(gs.last()) { gs.last() } else { Seq::empty() }
    }
}

/// The UTF-8 length of a character.
pub open spec fn utf8_len(c: char) -> nat {
    if (c as u32) < 0x80 {
        1
    } else if (c as u32) < 0x800 {
        2
    } else if (c as u32) < 0x10000 {
        3
    } else {
        4
    }
}

/// The UTF-8 length of a string.
pub open spec fn utf8_size(s: Seq<char>) -> nat
    decreases s.len(),
{
    if s.len() == 0 {
        0
    } else {
        utf8_size(s.drop_last()) + utf8_len(s.last())
    }
}

/// `s` followed by as many `_` as it takes to reach two bytes.
pub open spec fn padded(s: Seq<char>) -> Seq<char> {
    if utf8_size(s) >= 2 {
        s
    } else if utf8_size(s) == 1 {
        s.push('_')
    } else {
        s.push('_').push('_')
    }
}

/// The sanitised form of a username that fails the check: its clusters that
/// pass the check, padded with `_` to at least two bytes.
pub open spec fn sanitised_spec(username: Seq<char>) -> Seq<char> {
    padded(kept_clusters(graphemes_of(username)))
}

/// The UTF-8 length of a character.
fn char_utf8_len(c: char) -> (r: usize)
    ensures
        r == utf8_len(c),
{
    let v = c as u32;
    if v < 0x80 {
        1
    } else if v < 0x800 {
        2
    } else if v < 0x10000 {
        3
    } else {
        4
    }
}

/// Sanitises a username that fails the username check.
pub fn sanitise_username(username: &str) -> (r: String)
    ensures
        r@ == sanitised_spec(username@),
{
    let gs = graphemes(username);
    let ghost gv = views(gs@);
    let mut out = String::new();
    let mut size: usize = 0;
    let mut i: usize = 0;
    while i < gs.len()
        invariant
            gv == views(gs@),
            gv == graphemes_of(username@),
            i <= gs@.len(),
            out@ == kept_clusters(gv.take(i as int)),
            size == if utf8_size(out@) >= 2 { 2 } else { utf8_size(out@) },
        decreases gs@.len() - i,
    {
        proof {
            assert(gv.take(i + 1).drop_last() =~= gv.take(i as int));
            assert(gv.take(i + 1).last() == gs@[i as int]@);
        }
        let g = &gs[i];
        if username_matches(g.as_str()) {
            let cs = crate::text::chars_of(g.as_str());
            let ghost start = out@;
            let mut k: usize = 0;
            while k < cs.len()
                invariant
                    cs@ == g@,
                    k <= cs@.len(),
                    out@ == start + cs@.take(k as int),
                    size == if utf8_size(out@) >= 2 { 2 } else { utf8_size(out@) },
                decreases cs@.len() - k,
            {
                let c = cs[k];
                let ghost before = out@;
                push_char(&mut out, c);
                let l = char_utf8_len(c);
                proof {
                    assert(out@.drop_last() =~= before);
                    assert(cs@.take(k + 1) =~= cs@.take(k as int).push(c));
                }
                if size < 2 {
                    size = if size + l >= 2 { 2 } else { size + l };
                }
                k = k + 1;
            }
            proof {
                assert(cs@.take(cs@.len() as int) =~= cs@);
            }
        } else {
            proof {
                assert(kept_clusters(gv.take(i + 1)) =~= kept_clusters(gv.take(i as int)));
            }
        }
        i = i + 1;
    }
    proof {
        assert(gv.take(gs@.len() as int) =~= gv);
    }
    if size < 2 {
        let ghost before = out@;
        push_char(&mut out, '_');
        proof {
            assert(out@.drop_last() =~= before);
        }
        if size < 1 {
            let ghost before2 = out@;
            push_char(&mut out, '_');
            proof {
                assert(out@.drop_last() =~= before2);
            }
        }
    }
    out
}

/// The username a user has after the migration, and the display name it
/// is given: a valid username stays and gets none; any other is replaced
/// by its sanitised form, and the old name becomes the display name.
pub fn migrated_username(username: &str) -> (r: (String, Option<String>))
    ensures
        r.0@ == if is_username(username@) { username@ } else { sanitised_spec(username@) },
        match r.1 {
            Some(d) => !is_username(username@) && d@ == username@,
            None => is_username(username@),
        },
{
    if username_matches(username) {
        (username.to_owned(), None)
    } else {
        (sanitise_username(username), Some(username.to_owned()))
    }
}

/// One element of `v` chosen at random (`rand::seq::SliceRandom::choose`
/// with the thread's generator); `None` only for an empty `v`. Which one is
/// chosen is not stated.
#[verifier::external_body]
fn choose_from(v: &Vec<String>) -> (r: Option<String>)
    ensures
        v@.len() > 0 ==> r is Some,
        r matches Some(s) ==> views(v@).contains(s@),
{
    v.choose(&mut rand::thread_rng()).cloned()
}

/// The key under which a username and discriminator are claimed.
pub open spec fn claim_key(username: Seq<char>, discriminator: Seq<char>) -> Seq<char> {
    username + seq!['#'] + discriminator
}

/// The username and discriminator pairs handed out so far.
pub struct Claims {
    pub keys: Vec<String>,
}

impl Claims {
    /// No pair handed out.
    pub fn new() -> (r: Claims)
        ensures
            r.keys@.len() == 0,
    {
        Claims { keys: Vec::new() }
    }

    /// Claims `username#discriminator` unless it is taken, and says whether
    /// it was claimed; a taken pair is left as it is (the caller draws
    /// another discriminator).
    pub fn try_claim(&mut self, username: &str, discriminator: &str) -> (r: bool)
        ensures
            r == !views(old(self).keys@).contains(claim_key(username@, discriminator@)),
            r ==> views(final(self).keys@) == views(old(self).keys@).push(claim_key(username@, discriminator@)),
            !r ==> final(self).keys@ == old(self).keys@,
    {
        let mut key = username.to_owned();
        push_char(&mut key, '#');
        let cs = crate::text::chars_of(discriminator);
        let ghost start = key@;
        let mut i: usize = 0;
        while i < cs.len()
            invariant
                cs@ == discriminator@,
                i <= cs@.len(),
                key@ == start + cs@.take(i as int),
            decreases cs@.len() - i,
        {
            push_char(&mut key, cs[i]);
            proof {
                assert(cs@.take(i + 1) =~= cs@.take(i as int).push(cs@[i as int]));
            }
            i = i + 1;
        }
        proof {
            assert(cs@.take(cs@.len() as int) =~= cs@);
            assert(key@ =~= claim_key(username@, discriminator@));
        }
        if is_subscribed(&self.keys, &key) {
            false
        } else {
            let ghost before = self.keys@;
            self.keys.push(key);
            proof {
                lemma_views_push(before, key);
            }
            true
        }
    }

    /// Claims a discriminator from `space` for `username`: one drawn at
    /// random, and while the pair is taken another one drawn at random from
    /// those not yet drawn. `None`, with nothing claimed, when every
    /// discriminator of `space` is taken for `username`.
    pub fn claim_discriminator(&mut self, username: &str, space: &Vec<String>) -> (r: Option<String>)
        ensures
            match r {
                Some(d) => {
                    &&& views(space@).contains(d@)
                    &&& !views(old(self).keys@).contains(claim_key(username@, d@))
                    &&& views(final(self).keys@) == views(old(self).keys@).push(claim_key(username@, d@))
                },
                None => {
                    &&& forall|i: int| 0 <= i < space@.len() ==> views(old(self).keys@).contains(
                        claim_key(username@, #[trigger] space@[i]@),
                    )
                    &&& final(self).keys@ == old(self).keys@
                },
            },
    {
        let ghost k0 = self.keys@;
        let mut candidates: Vec<String> = space.clone();
        proof {
            assert forall|k: int| 0 <= k < candidates@.len() implies candidates@[k] == space@[k] by {
                assert(vstd::pervasive::cloned(space@[k], candidates@[k]));
            }
            assert(candidates@ =~= space@);
            assert forall|j: int| 0 <= j < candidates@.len() implies views(space@).contains(#[trigger] candidates@[j]@) by {
                assert(views(space@)[j] == space@[j]@);
            }
            assert forall|i: int| 0 <= i < space@.len() implies views(candidates@).contains(#[trigger] space@[i]@) by {
                assert(views(candidates@)[i] == space@[i]@);
            }
        }
        loop
            invariant
                self.keys@ == k0,
                k0 == old(self).keys@,
                forall|j: int| 0 <= j < candidates@.len() ==> views(space@).contains(#[trigger] candidates@[j]@),
                forall|i: int|
                    0 <= i < space@.len() ==> views(candidates@).contains(#[trigger] space@[i]@) || views(k0).contains(
                        claim_key(username@, space@[i]@),
                    ),
            decreases candidates@.len(),
        {
            let drawn = choose_from(&candidates);
            let d = match drawn {
                Some(d) => d,
                None => {
                    proof {
                        assert forall|i: int| 0 <= i < space@.len() implies views(k0).contains(
                            claim_key(username@, #[trigger] space@[i]@),
                        ) by {
                            if views(candidates@).contains(space@[i]@) {
                                let q = choose|q: int| 0 <= q < views(candidates@).len() && views(candidates@)[q] == space@[i]@;
                            }
                        }
                    }
                    return None;
                },
            };
            let ghost dv = d@;
            proof {
                let q = choose|q: int| 0 <= q < views(candidates@).len() && views(candidates@)[q] == dv;
                assert(candidates@[q]@ == dv);
                assert(views(space@).contains(candidates@[q]@));
                assert(views(space@).contains(dv));
            }
            if self.try_claim(username, d.as_str()) {
                return Some(d);
            }
            let idx = match find_string(&candidates, &d) {
                Some(idx) => idx,
                None => {
                    proof {
                        let q = choose|q: int| 0 <= q < views(candidates@).len() && views(candidates@)[q] == dv;
                        assert(candidates@[q]@ == dv);
                    }
                    return None;
                },
            };
            let ghost before = candidates@;
            candidates.remove(idx);
            proof {
                assert forall|j: int| 0 <= j < candidates@.len() implies views(space@).contains(#[trigger] candidates@[j]@) by {
                    if j < idx {
                        assert(candidates@[j] == before[j]);
                    } else {
                        assert(candidates@[j] == before[j + 1]);
                    }
                }
                assert forall|i: int|
                    0 <= i < space@.len() implies views(candidates@).contains(#[trigger] space@[i]@) || views(k0).contains(
                        claim_key(username@, space@[i]@),
                    ) by {
                    if space@[i]@ != dv && views(before).contains(space@[i]@) {
                        let q = choose|q: int| 0 <= q < views(before).len() && views(before)[q] == space@[i]@;
                        assert(q != idx);
                        if q < idx {
                            assert(views(candidates@)[q] == space@[i]@);
                        } else {
                            assert(views(candidates@)[q - 1] == space@[i]@);
                        }
                    }
                }
            }
        }
    }
}

/// Whether no key occurs twice.
pub open spec fn all_distinct(keys: Seq<Seq<char>>) -> bool {
    forall|i: int, j: int| 0 <= i < j < keys.len() ==> keys[i] != keys[j]
}

/// No username and discriminator pair is handed out twice: claiming a pair
/// that is not taken keeps the claimed pairs distinct.
pub proof fn lemma_claims_stay_distinct(keys: Seq<Seq<char>>, key: Seq<char>)
    requires
        all_distinct(keys),
        !keys.contains(key),
    ensures
        all_distinct(keys.push(key)),
{
    let k2 = keys.push(key);
    assert forall|i: int, j: int| 0 <= i < j < k2.len() implies k2[i] != k2[j] by {
        if j == keys.len() {
            assert(k2[i] == keys[i]);
        }
    }
}

} // verus!

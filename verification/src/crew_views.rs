//! What the crew listings show: crews one may join, a crew's guest view, crews one may delete.
use vstd::prelude::*;
use vstd::string::*;
use crate::errors::{ErrView, NasError};
use crate::models::{
    opt_view, status_from_code, Crew, CrewGuestView, CrewListEntry, CrewMembership, CrewVisibility,
    DeletableCrew,
    Status, GLOBAL_ROOT_CREW_ID,
};
use crate::text::str_eq;

verus! {

pub open spec fn crew_ids(cs: Seq<Crew>) -> Seq<Seq<char>> {
    cs.map_values(|c: Crew| c.id@)
}

/// The public crews whose id is not among the user's own crews, in their order.
pub open spec fn discoverable_spec(public: Seq<Crew>, mine: Seq<Seq<char>>) -> Seq<Crew>
    decreases public.len(),
{
    if public.len() == 0 {
        public
    } else {
        let p = discoverable_spec(public.drop_last(), mine);
        if mine.contains(public.last().id@) {
            p
        } else {
            p.push(public.last())
        }
    }
}

fn id_among(id: &str, mine: &Vec<Crew>) -> (r: bool)
    ensures
        r == crew_ids(mine@).contains(id@),
{
    let mut i: usize = 0;
    while i < mine.len()
        invariant
            i <= mine.len(),
            forall|j: int| 0 <= j < i ==> mine@[j].id@ != id@,
        decreases mine.len() - i,
    {
        if str_eq(mine[i].id.as_str(), id) {
            assert(crew_ids(mine@)[i as int] == id@);
            return true;
        }
        i += 1;
    }
    proof {
        if crew_ids(mine@).contains(id@) {
            let j = choose|j: int| 0 <= j < crew_ids(mine@).len() && crew_ids(mine@)[j] == id@;
            assert(mine@[j].id@ == id@);
        }
    }
    false
}

/// Public crews the user is not in yet.
pub fn discoverable_crews(public: Vec<Crew>, mine: &Vec<Crew>) -> (r: Vec<Crew>)
    ensures
        r@ == discoverable_spec(public@, crew_ids(mine@)),
{
    let ghost all = public@;
    let public_len = public.len();
    let mut rest = public;
    let mut out: Vec<Crew> = Vec::new();
    let mut i: usize = 0;
    assert(all.take(0) =~= Seq::<Crew>::empty());
    assert(all.skip(0) =~= all);
    while rest.len() > 0
        invariant
            i + rest@.len() == all.len(),
            all.len() == public_len,
            rest@ == all.skip(i as int),
            out@ == discoverable_spec(all.take(i as int), crew_ids(mine@)),
        decreases rest.len(),
    {
        assert(all.take(i + 1).drop_last() =~= all.take(i as int));
        let c = rest.remove(0);
        assert(c == all[i as int]);
        assert(rest@ =~= all.skip(i + 1));
        if !id_among(c.id.as_str(), mine) {
            out.push(c);
        }
        i += 1;
    }
    assert(all.take(i as int) =~= all);
    out
}

/// How a crew is shown to a viewer: the global root without its folder's name; to an active
/// member, and to anyone when the crew is public, with its root folder's name; a private crew
/// is hidden from others.
pub enum GuestViewPlan {
    Plain,
    WithRootName,
    Hidden,
}

/// The global root crew is shown plainly, whoever asks.
pub fn guest_view_is_global(crew_id: &str) -> (r: bool)
    ensures
        r == (crew_id@ == GLOBAL_ROOT_CREW_ID@),
{
    str_eq(crew_id, GLOBAL_ROOT_CREW_ID)
}

/// The plan for a non-global crew, given the viewer's membership (when signed in).
pub fn guest_view_plan(crew: &Crew, viewer_membership: &Option<CrewMembership>) -> (r: GuestViewPlan)
    ensures
        (viewer_membership matches Some(m) && status_from_code(m.status) == Some(Status::Active)) ==> r
            matches GuestViewPlan::WithRootName,
        !(viewer_membership matches Some(m) && status_from_code(m.status) == Some(Status::Active)) ==> (
        if crew.visibility == CrewVisibility::Private {
            r matches GuestViewPlan::Hidden
        } else {
            r matches GuestViewPlan::WithRootName
        }),
{
    let active = match viewer_membership {
        Some(m) => match Status::from_u8(m.status) {
            Some(s) => s.is_active(),
            None => false,
        },
        None => false,
    };
    if active {
        GuestViewPlan::WithRootName
    } else if crew.visibility == CrewVisibility::Private {
        GuestViewPlan::Hidden
    } else {
        GuestViewPlan::WithRootName
    }
}

/// A crew's guest view, with the root folder's name where it was looked up.
pub fn guest_view(crew: Crew, root_folder_name: Option<String>) -> (r: CrewGuestView)
    ensures
        r.id == crew.id,
        r.name == crew.name,
        r.visibility == crew.visibility,
        r.root_folder_id == crew.root_folder_id,
        r.root_folder_name == root_folder_name,
{
    CrewGuestView {
        id: crew.id,
        name: crew.name,
        visibility: crew.visibility,
        root_folder_id: crew.root_folder_id,
        root_folder_name,
    }
}

/// A hidden crew does not exist for the viewer.
pub fn guest_view_hidden() -> (r: NasError)
    ensures
        r@ == ErrView::DataNotFound,
{
    NasError::DataNotFound
}

/// A crew listed as deletable, marked when the user owns it directly.
pub fn deletable_crew(crew: Crew, is_direct_owner: bool) -> (r: DeletableCrew)
    ensures
        r.id == crew.id,
        r.name == crew.name,
        r.visibility == crew.visibility,
        r.parent_id == crew.parent_id,
        r.is_direct_owner == is_direct_owner,
{
    DeletableCrew {
        id: crew.id,
        name: crew.name,
        visibility: crew.visibility,
        parent_id: crew.parent_id,
        is_direct_owner,
    }
}


// ------------------------------------------------------------------
// the home listing

/// Lexicographic order of texts by code point (the order of `String`).
pub open spec fn lex_lt(a: Seq<char>, b: Seq<char>) -> bool
    decreases a.len(),
{
    if a.len() == 0 {
        b.len() > 0
    } else if b.len() == 0 {
        false
    } else if a[0] != b[0] {
        (a[0] as u32) < (b[0] as u32)
    } else {
        lex_lt(a.drop_first(), b.drop_first())
    }
}

pub fn chars_lt(a: &Vec<char>, b: &Vec<char>) -> (r: bool)
    ensures
        r == lex_lt(a@, b@),
{
    let mut i: usize = 0;
    assert(a@.skip(0) =~= a@);
    assert(b@.skip(0) =~= b@);
    while i < a.len() && i < b.len() && a[i] == b[i]
        invariant
            i <= a.len(),
            i <= b.len(),
            lex_lt(a@.skip(i as int), b@.skip(i as int)) == lex_lt(a@, b@),
        decreases a.len() - i,
    {
        assert(a@.skip(i as int).drop_first() =~= a@.skip(i + 1));
        assert(b@.skip(i as int).drop_first() =~= b@.skip(i + 1));
        i += 1;
    }
    if i == a.len() {
        i < b.len()
    } else if i == b.len() {
        false
    } else {
        assert(a@.skip(i as int)[0] == a@[i as int]);
        assert(b@.skip(i as int)[0] == b@[i as int]);
        (a[i] as u32) < (b[i] as u32)
    }
}

/// Puts `e` into a list ordered by id: in front of the first entry whose id is not smaller,
/// replacing an entry with the same id.
pub open spec fn insert_by_id(s: Seq<CrewListEntry>, e: CrewListEntry) -> Seq<CrewListEntry>
    decreases s.len(),
{
    if s.len() == 0 {
        seq![e]
    } else if lex_lt(s[0].id@, e.id@) {
        seq![s[0]] + insert_by_id(s.drop_first(), e)
    } else if s[0].id@ == e.id@ {
        seq![e] + s.drop_first()
    } else {
        seq![e] + s
    }
}

proof fn lemma_insert_at(s: Seq<CrewListEntry>, e: CrewListEntry, k: int)
    requires
        0 <= k <= s.len(),
        forall|j: int| 0 <= j < k ==> lex_lt(#[trigger] s[j].id@, e.id@),
        k < s.len() ==> !lex_lt(s[k].id@, e.id@),
    ensures
        insert_by_id(s, e) == s.take(k) + (if k < s.len() && s[k].id@ == e.id@ {
            seq![e] + s.skip(k + 1)
        } else {
            seq![e] + s.skip(k)
        }),
    decreases k,
{
    if k == 0 {
        assert(s.take(0) =~= Seq::<CrewListEntry>::empty());
        assert(s.skip(0) =~= s);
        if s.len() > 0 {
            assert(s.skip(1) =~= s.drop_first());
        }
        assert(Seq::<CrewListEntry>::empty() + (if 0 < s.len() && s[0].id@ == e.id@ {
            seq![e] + s.skip(1)
        } else {
            seq![e] + s.skip(0)
        }) =~= (if 0 < s.len() && s[0].id@ == e.id@ {
            seq![e] + s.skip(1)
        } else {
            seq![e] + s.skip(0)
        }));
    } else {
        let t = s.drop_first();
        assert forall|j: int| 0 <= j < k - 1 implies lex_lt(#[trigger] t[j].id@, e.id@) by {
            assert(t[j] == s[j + 1]);
        }
        if k < s.len() {
            assert(t[k - 1] == s[k]);
        }
        lemma_insert_at(t, e, k - 1);
        assert(lex_lt(s[0].id@, e.id@));
        assert(t.take(k - 1) =~= s.take(k).drop_first());
        assert(t.skip(k - 1) =~= s.skip(k));
        if k < s.len() {
            assert(t.skip(k) =~= s.skip(k + 1));
        }
        assert(s.take(k) =~= seq![s[0]] + t.take(k - 1));
    }
}

/// Inserts `e` into `v` as `insert_by_id` says.
fn insert_entry(v: &mut Vec<CrewListEntry>, e: CrewListEntry)
    ensures
        final(v)@ == insert_by_id(old(v)@, e),
{
    let ec = crate::text::str_chars(e.id.as_str());
    let mut k: usize = 0;
    while k < v.len()
        invariant
            k <= v.len(),
            v@ == old(v)@,
            ec@ == e.id@,
            forall|j: int| 0 <= j < k ==> lex_lt(#[trigger] v@[j].id@, e.id@),
        ensures
            k <= v.len(),
            v@ == old(v)@,
            forall|j: int| 0 <= j < k ==> lex_lt(#[trigger] v@[j].id@, e.id@),
            k < v.len() ==> !lex_lt(v@[k as int].id@, e.id@),
        decreases v.len() - k,
    {
        let kc = crate::text::str_chars(v[k].id.as_str());
        if !chars_lt(&kc, &ec) {
            break;
        }
        k += 1;
    }
    proof { lemma_insert_at(v@, e, k as int); }
    if k < v.len() && str_eq(v[k].id.as_str(), e.id.as_str()) {
        v.set(k, e);
        assert(v@ =~= old(v)@.take(k as int) + (seq![e] + old(v)@.skip(k + 1)));
    } else {
        v.insert(k, e);
        assert(v@ =~= old(v)@.take(k as int) + (seq![e] + old(v)@.skip(k as int)));
    }
}

/// A crew as listed on the home screen.
pub fn home_entry(c: Crew, is_member: bool) -> (r: CrewListEntry)
    ensures
        r == (CrewListEntry {
            id: c.id,
            name: c.name,
            visibility: c.visibility,
            root_folder_id: c.root_folder_id,
            is_member,
        }),
{
    CrewListEntry { id: c.id, name: c.name, visibility: c.visibility, root_folder_id: c.root_folder_id, is_member }
}

pub open spec fn entry_of_crew(c: Crew, is_member: bool) -> CrewListEntry {
    CrewListEntry { id: c.id, name: c.name, visibility: c.visibility, root_folder_id: c.root_folder_id, is_member }
}

/// The home listing built from public crews (those with a root folder) and then the viewer's
/// own crews (with a root folder, the global root left out), each put in by id.
pub open spec fn home_fold(acc: Seq<CrewListEntry>, crews: Seq<Crew>, members: bool) -> Seq<CrewListEntry>
    decreases crews.len(),
{
    if crews.len() == 0 {
        acc
    } else {
        let prev = home_fold(acc, crews.drop_last(), members);
        let c = crews.last();
        let skip = c.root_folder_id is None || (members && c.id@ == GLOBAL_ROOT_CREW_ID@);
        if skip {
            prev
        } else {
            insert_by_id(prev, entry_of_crew(c, members))
        }
    }
}

fn add_crews(acc: &mut Vec<CrewListEntry>, crews: Vec<Crew>, members: bool)
    ensures
        final(acc)@ == home_fold(old(acc)@, crews@, members),
{
    let ghost all = crews@;
    let ghost start = acc@;
    let total = crews.len();
    let mut rest = crews;
    let mut i: usize = 0;
    assert(all.take(0) =~= Seq::<Crew>::empty());
    assert(all.skip(0) =~= all);
    while rest.len() > 0
        invariant
            i + rest@.len() == all.len(),
            all.len() == total,
            rest@ == all.skip(i as int),
            acc@ == home_fold(start, all.take(i as int), members),
        decreases rest.len(),
    {
        assert(all.take(i + 1).drop_last() =~= all.take(i as int));
        let c = rest.remove(0);
        assert(c == all[i as int]);
        assert(rest@ =~= all.skip(i + 1));
        let skip = c.root_folder_id.is_none() || (members && str_eq(c.id.as_str(), GLOBAL_ROOT_CREW_ID));
        if !skip {
            insert_entry(acc, home_entry(c, members));
        }
        i += 1;
    }
    assert(all.take(i as int) =~= all);
}

/// The crews shown on the home screen: public crews to everyone, and the viewer's own crews,
/// which win over the public entry of the same crew; ordered by id.
pub fn home_crews(public: Vec<Crew>, mine: Option<Vec<Crew>>) -> (r: Vec<CrewListEntry>)
    ensures
        r@ == match mine {
            Some(m) => home_fold(home_fold(Seq::empty(), public@, false), m@, true),
            None => home_fold(Seq::empty(), public@, false),
        },
{
    let mut acc: Vec<CrewListEntry> = Vec::new();
    add_crews(&mut acc, public, false);
    match mine {
        Some(m) => add_crews(&mut acc, m, true),
        None => {},
    }
    acc
}


// ------------------------------------------------------------------
// laws of the home listing

pub open spec fn sorted_by_id(s: Seq<CrewListEntry>) -> bool {
    forall|i: int, j: int| 0 <= i < j < s.len() ==> lex_lt(#[trigger] s[i].id@, #[trigger] s[j].id@)
}

proof fn lemma_lex_irreflexive(a: Seq<char>)
    ensures
        !lex_lt(a, a),
    decreases a.len(),
{
    if a.len() > 0 {
        lemma_lex_irreflexive(a.drop_first());
    }
}

proof fn lemma_lex_transitive(a: Seq<char>, b: Seq<char>, c: Seq<char>)
    requires
        lex_lt(a, b),
        lex_lt(b, c),
    ensures
        lex_lt(a, c),
    decreases a.len(),
{
    if a.len() > 0 && b.len() > 0 && c.len() > 0 && a[0] == b[0] && b[0] == c[0] {
        lemma_lex_transitive(a.drop_first(), b.drop_first(), c.drop_first());
    }
}

proof fn lemma_lex_total(a: Seq<char>, b: Seq<char>)
    ensures
        a == b || lex_lt(a, b) || lex_lt(b, a),
    decreases a.len(),
{
    if a.len() > 0 && b.len() > 0 {
        if a[0] == b[0] {
            lemma_lex_total(a.drop_first(), b.drop_first());
            if a.drop_first() == b.drop_first() {
                assert(a =~= seq![a[0]] + a.drop_first());
                assert(b =~= seq![b[0]] + b.drop_first());
            }
        } else {
            vstd::utf8::char_u32_cast(a[0], a[0] as u32);
            vstd::utf8::char_u32_cast(b[0], b[0] as u32);
            assert((a[0] as u32) != (b[0] as u32));
        }
    } else if a.len() == 0 && b.len() == 0 {
        assert(a =~= b);
    }
}

proof fn lemma_insert_members(s: Seq<CrewListEntry>, e: CrewListEntry)
    ensures
        forall|i: int| 0 <= i < insert_by_id(s, e).len() ==> (#[trigger] insert_by_id(s, e)[i] == e
            || s.contains(insert_by_id(s, e)[i])),
    decreases s.len(),
{
    if s.len() > 0 && lex_lt(s[0].id@, e.id@) {
        let t = s.drop_first();
        lemma_insert_members(t, e);
        let r = insert_by_id(s, e);
        assert forall|i: int| 0 <= i < r.len() implies (#[trigger] r[i] == e || s.contains(r[i])) by {
            if i == 0 {
                assert(s[0] == r[0]);
            } else {
                assert(r[i] == insert_by_id(t, e)[i - 1]);
                if insert_by_id(t, e)[i - 1] != e {
                    let j = choose|j: int| 0 <= j < t.len() && t[j] == insert_by_id(t, e)[i - 1];
                    assert(s[j + 1] == t[j]);
                }
            }
        }
    } else if s.len() > 0 && s[0].id@ == e.id@ {
        let r = insert_by_id(s, e);
        assert forall|i: int| 0 <= i < r.len() implies (#[trigger] r[i] == e || s.contains(r[i])) by {
            if i > 0 {
                assert(r[i] == s[i]);
            }
        }
    } else if s.len() > 0 {
        let r = insert_by_id(s, e);
        assert forall|i: int| 0 <= i < r.len() implies (#[trigger] r[i] == e || s.contains(r[i])) by {
            if i > 0 {
                assert(r[i] == s[i - 1]);
            }
        }
    }
}

proof fn lemma_insert_sorted(s: Seq<CrewListEntry>, e: CrewListEntry)
    requires
        sorted_by_id(s),
    ensures
        sorted_by_id(insert_by_id(s, e)),
    decreases s.len(),
{
    let r = insert_by_id(s, e);
    if s.len() == 0 {
        return;
    }
    if lex_lt(s[0].id@, e.id@) {
        let t = s.drop_first();
        assert forall|i: int, j: int| 0 <= i < j < t.len() implies lex_lt(#[trigger] t[i].id@, #[trigger] t[j].id@) by {
            assert(s[i + 1] == t[i] && s[j + 1] == t[j]);
        }
        lemma_insert_sorted(t, e);
        lemma_insert_members(t, e);
        let q = insert_by_id(t, e);
        assert forall|i: int, j: int| 0 <= i < j < r.len() implies lex_lt(#[trigger] r[i].id@, #[trigger] r[j].id@) by {
            if i == 0 {
                assert(r[j] == q[j - 1]);
                if q[j - 1] == e {
                } else {
                    let k = choose|k: int| 0 <= k < t.len() && t[k] == q[j - 1];
                    assert(s[k + 1] == t[k]);
                    assert(lex_lt(s[0].id@, s[k + 1].id@));
                }
            } else {
                assert(r[i] == q[i - 1] && r[j] == q[j - 1]);
            }
        }
    } else if s[0].id@ == e.id@ {
        assert forall|i: int, j: int| 0 <= i < j < r.len() implies lex_lt(#[trigger] r[i].id@, #[trigger] r[j].id@) by {
            assert(r[j] == s[j]);
            if i > 0 {
                assert(r[i] == s[i]);
            } else {
                assert(lex_lt(s[0].id@, s[j].id@));
            }
        }
    } else {
        lemma_lex_total(s[0].id@, e.id@);
        assert(lex_lt(e.id@, s[0].id@));
        assert forall|i: int, j: int| 0 <= i < j < r.len() implies lex_lt(#[trigger] r[i].id@, #[trigger] r[j].id@) by {
            assert(r[j] == s[j - 1]);
            if i > 0 {
                assert(r[i] == s[i - 1]);
            } else if j > 1 {
                assert(lex_lt(s[0].id@, s[j - 1].id@));
                lemma_lex_transitive(e.id@, s[0].id@, s[j - 1].id@);
            }
        }
    }
}

proof fn lemma_home_fold_sorted(acc: Seq<CrewListEntry>, crews: Seq<Crew>, members: bool)
    requires
        sorted_by_id(acc),
    ensures
        sorted_by_id(home_fold(acc, crews, members)),
    decreases crews.len(),
{
    if crews.len() > 0 {
        lemma_home_fold_sorted(acc, crews.drop_last(), members);
        lemma_insert_sorted(home_fold(acc, crews.drop_last(), members), entry_of_crew(crews.last(), members));
    }
}

/// The home listing is ordered by crew id, strictly: each crew appears once.
pub proof fn lemma_home_listing_ordered(public: Seq<Crew>, mine: Option<Seq<Crew>>)
    ensures
        sorted_by_id(
            match mine {
                Some(m) => home_fold(home_fold(Seq::empty(), public, false), m, true),
                None => home_fold(Seq::empty(), public, false),
            },
        ),
{
    lemma_home_fold_sorted(Seq::empty(), public, false);
    match mine {
        Some(m) => lemma_home_fold_sorted(home_fold(Seq::empty(), public, false), m, true),
        None => {},
    }
}

proof fn lemma_insert_contains(s: Seq<CrewListEntry>, e: CrewListEntry)
    ensures
        insert_by_id(s, e).contains(e),
    decreases s.len(),
{
    let r = insert_by_id(s, e);
    if s.len() == 0 {
        assert(r[0] == e);
    } else if lex_lt(s[0].id@, e.id@) {
        lemma_insert_contains(s.drop_first(), e);
        let q = insert_by_id(s.drop_first(), e);
        let k = choose|k: int| 0 <= k < q.len() && q[k] == e;
        assert(r[k + 1] == q[k]);
    } else {
        assert(r[0] == e);
    }
}

proof fn lemma_insert_keeps(s: Seq<CrewListEntry>, e: CrewListEntry, x: CrewListEntry)
    requires
        s.contains(x),
        x.id@ != e.id@,
    ensures
        insert_by_id(s, e).contains(x),
    decreases s.len(),
{
    let r = insert_by_id(s, e);
    let j = choose|j: int| 0 <= j < s.len() && s[j] == x;
    if lex_lt(s[0].id@, e.id@) {
        if j == 0 {
            assert(r[0] == x);
        } else {
            let t = s.drop_first();
            assert(t[j - 1] == x);
            lemma_insert_keeps(t, e, x);
            let q = insert_by_id(t, e);
            let k = choose|k: int| 0 <= k < q.len() && q[k] == x;
            assert(r[k + 1] == q[k]);
        }
    } else if s[0].id@ == e.id@ {
        assert(j > 0);
        assert(r[j] == s[j]);
    } else {
        assert(r[j + 1] == s[j]);
    }
}

/// `x` is the listing entry of one of `crews`.
pub open spec fn from_crews(x: CrewListEntry, crews: Seq<Crew>, members: bool) -> bool {
    exists|j: int| 0 <= j < crews.len() && x == entry_of_crew(#[trigger] crews[j], members)
}

proof fn lemma_fold_sources(acc: Seq<CrewListEntry>, crews: Seq<Crew>, members: bool)
    ensures
        forall|k: int| 0 <= k < home_fold(acc, crews, members).len() ==> (acc.contains(
            #[trigger] home_fold(acc, crews, members)[k],
        ) || from_crews(home_fold(acc, crews, members)[k], crews, members)),
    decreases crews.len(),
{
    if crews.len() > 0 {
        let init = crews.drop_last();
        lemma_fold_sources(acc, init, members);
        let prev = home_fold(acc, init, members);
        let c = crews.last();
        let r = home_fold(acc, crews, members);
        let e = entry_of_crew(c, members);
        let skip = c.root_folder_id is None || (members && c.id@ == GLOBAL_ROOT_CREW_ID@);
        if !skip {
            lemma_insert_members(prev, e);
        }
        assert forall|k: int| 0 <= k < r.len() implies (acc.contains(#[trigger] r[k]) || from_crews(r[k], crews, members)) by {
            let x = r[k];
            if !skip && x == e {
                assert(crews[crews.len() - 1] == c);
            } else {
                let i = choose|i: int| 0 <= i < prev.len() && prev[i] == x;
                if !acc.contains(x) {
                    assert(acc.contains(prev[i]) || from_crews(prev[i], init, members));
                    let j = choose|j: int| 0 <= j < init.len() && x == entry_of_crew(#[trigger] init[j], members);
                    assert(crews[j] == init[j]);
                }
            }
        }
    }
}

/// Every crew on the home screen is one of the public crews, shown as not the viewer's, or one
/// of the viewer's own crews, shown as the viewer's: a private crew appears only to its members.
pub proof fn lemma_home_listing_sources(public: Seq<Crew>, mine: Option<Seq<Crew>>)
    ensures
        ({
            let r = match mine {
                Some(m) => home_fold(home_fold(Seq::empty(), public, false), m, true),
                None => home_fold(Seq::empty(), public, false),
            };
            forall|k: int| 0 <= k < r.len() ==> from_crews(#[trigger] r[k], public, false) || (mine matches Some(m)
                && from_crews(r[k], m, true))
        }),
{
    let base = home_fold(Seq::empty(), public, false);
    lemma_fold_sources(Seq::empty(), public, false);
    assert forall|k: int| 0 <= k < base.len() implies from_crews(#[trigger] base[k], public, false) by {
        assert(!Seq::<CrewListEntry>::empty().contains(base[k]));
    }
    match mine {
        Some(m) => {
            lemma_fold_sources(base, m, true);
            let r = home_fold(base, m, true);
            assert forall|k: int| 0 <= k < r.len() implies from_crews(#[trigger] r[k], public, false) || from_crews(r[k], m, true) by {
                if base.contains(r[k]) {
                    let i = choose|i: int| 0 <= i < base.len() && base[i] == r[k];
                    assert(from_crews(base[i], public, false));
                }
            }
        },
        None => {},
    }
}

/// The entry for a crew id is the viewer's.
pub open spec fn lists_as_member(s: Seq<CrewListEntry>, id: Seq<char>) -> bool {
    exists|k: int| 0 <= k < s.len() && (#[trigger] s[k]).id@ == id && s[k].is_member
}

proof fn lemma_fold_lists_members(acc: Seq<CrewListEntry>, crews: Seq<Crew>)
    ensures
        forall|i: int| 0 <= i < crews.len() && (#[trigger] crews[i]).root_folder_id is Some && crews[i].id@
            != GLOBAL_ROOT_CREW_ID@ ==> lists_as_member(home_fold(acc, crews, true), crews[i].id@),
    decreases crews.len(),
{
    if crews.len() > 0 {
        let init = crews.drop_last();
        lemma_fold_lists_members(acc, init);
        let prev = home_fold(acc, init, true);
        let c = crews.last();
        let r = home_fold(acc, crews, true);
        let e = entry_of_crew(c, true);
        let skip = c.root_folder_id is None || c.id@ == GLOBAL_ROOT_CREW_ID@;
        assert forall|i: int| 0 <= i < crews.len() && (#[trigger] crews[i]).root_folder_id is Some && crews[i].id@
            != GLOBAL_ROOT_CREW_ID@ implies lists_as_member(r, crews[i].id@) by {
            if i == crews.len() - 1 {
                lemma_insert_contains(prev, e);
                let k = choose|k: int| 0 <= k < r.len() && r[k] == e;
                assert(r[k].id@ == crews[i].id@ && r[k].is_member);
            } else {
                assert(init[i] == crews[i]);
                assert(lists_as_member(prev, init[i].id@));
                let k = choose|k: int| 0 <= k < prev.len() && (#[trigger] prev[k]).id@ == init[i].id@ && prev[k].is_member;
                if !skip {
                    if prev[k].id@ == e.id@ {
                        lemma_insert_contains(prev, e);
                        let k2 = choose|k2: int| 0 <= k2 < r.len() && r[k2] == e;
                        assert(r[k2].id@ == crews[i].id@ && r[k2].is_member);
                    } else {
                        assert(prev.contains(prev[k]));
                        lemma_insert_keeps(prev, e, prev[k]);
                        let k2 = choose|k2: int| 0 <= k2 < r.len() && r[k2] == prev[k];
                        assert(r[k2].id@ == crews[i].id@ && r[k2].is_member);
                    }
                } else {
                    assert(r[k].id@ == crews[i].id@ && r[k].is_member);
                }
            }
        }
    }
}

/// Each of the viewer's crews with a root folder (the global root aside) is on the home screen
/// as the viewer's own, also when it is public.
pub proof fn lemma_home_lists_own_crews(public: Seq<Crew>, mine: Seq<Crew>)
    ensures
        forall|i: int| 0 <= i < mine.len() && (#[trigger] mine[i]).root_folder_id is Some && mine[i].id@
            != GLOBAL_ROOT_CREW_ID@ ==> lists_as_member(
            home_fold(home_fold(Seq::empty(), public, false), mine, true),
            mine[i].id@,
        ),
{
    lemma_fold_lists_members(home_fold(Seq::empty(), public, false), mine);
}

} // verus!

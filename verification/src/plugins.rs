//! Plugin registration rules: reconciling a directory scan with the registry,
//! reordering, manifest and directory checks, and the descriptor list shown to
//! the front end.

use vstd::prelude::*;

use crate::ordering::{distinct_ids, distinct_items, items_view, lemma_order_id_lt_distinct, sort_by_order_id, sorted_by_order_id};
use crate::registry::{EntrySpec, PluginEntryState, PluginRuntimeConfig};
use crate::text::{chars_equal, owned};

verus! {

/// The plain value of a list of `(plugin id, directory name)` pairs.
pub open spec fn pairs_view(d: Seq<(String, String)>) -> Seq<(Seq<char>, Seq<char>)> {
    d.map_values(|p: (String, String)| (p.0@, p.1@))
}

/// The largest order among the listed registrations, or -1 when there are none
/// (`values().map(order).max().unwrap_or(-1)`).
pub open spec fn max_order(s: Seq<(Seq<char>, EntrySpec)>) -> int
    decreases s.len(),
{
    if s.len() == 0 {
        -1
    } else if s.len() == 1 {
        s[0].1.order as int
    } else {
        let m = max_order(s.drop_last());
        if s.last().1.order as int > m {
            s.last().1.order as int
        } else {
            m
        }
    }
}

/// The order given to the first plugin that a scan newly registers.
pub open spec fn first_free_order(runtime: &PluginRuntimeConfig) -> int {
    max_order(runtime.entries()) + 1
}

/// One discovered plugin: an existing registration only moves to `dir`; a new
/// one is registered disabled with the next free order.
pub open spec fn reconcile_step(
    m: Map<Seq<char>, EntrySpec>,
    next: int,
    id: Seq<char>,
    dir: Seq<char>,
) -> (Map<Seq<char>, EntrySpec>, int) {
    if m.contains_key(id) {
        (m.insert(id, EntrySpec { enabled: m[id].enabled, order: m[id].order, directory: dir }), next)
    } else {
        (m.insert(id, EntrySpec { enabled: false, order: next as i32, directory: dir }), next + 1)
    }
}

/// The registry and the next free order after taking the discovered plugins in
/// turn.
pub open spec fn reconciled(
    m: Map<Seq<char>, EntrySpec>,
    d: Seq<(Seq<char>, Seq<char>)>,
    next: int,
) -> (Map<Seq<char>, EntrySpec>, int)
    decreases d.len(),
{
    if d.len() == 0 {
        (m, next)
    } else {
        let r = reconcile_step(m, next, d[0].0, d[0].1);
        reconciled(r.0, d.drop_first(), r.1)
    }
}

/// Whether some discovered pair names `id`.
pub open spec fn has_id(d: Seq<(Seq<char>, Seq<char>)>, id: Seq<char>) -> bool {
    exists|i: int| 0 <= i < d.len() && d[i].0 == id
}

/// The directory of the last discovered pair that names `id`.
pub open spec fn last_directory(d: Seq<(Seq<char>, Seq<char>)>, id: Seq<char>) -> Seq<char>
    decreases d.len(),
{
    if d.len() == 0 {
        Seq::empty()
    } else if has_id(d.drop_first(), id) {
        last_directory(d.drop_first(), id)
    } else {
        d[0].1
    }
}

proof fn lemma_has_id_split(d: Seq<(Seq<char>, Seq<char>)>, id: Seq<char>)
    requires
        d.len() > 0,
    ensures
        has_id(d, id) <==> (d[0].0 == id || has_id(d.drop_first(), id)),
{
    if has_id(d, id) && d[0].0 != id {
        let i = choose|i: int| 0 <= i < d.len() && d[i].0 == id;
        assert(d.drop_first()[i - 1].0 == id);
    }
    if has_id(d.drop_first(), id) {
        let i = choose|i: int| 0 <= i < d.len() - 1 && d.drop_first()[i].0 == id;
        assert(d[i + 1].0 == id);
    }
    if d[0].0 == id {
        assert(d[0].0 == id);
    }
}

/// What a reconciliation yields, key by key.
pub proof fn lemma_reconciled(m: Map<Seq<char>, EntrySpec>, d: Seq<(Seq<char>, Seq<char>)>, next: int)
    requires
        i32::MIN <= next,
        reconciled(m, d, next).1 <= i32::MAX,
    ensures
        reconciled(m, d, next).1 >= next,
        forall|k: Seq<char>| #[trigger]
            reconciled(m, d, next).0.contains_key(k) <==> (m.contains_key(k) || has_id(d, k)),
        forall|k: Seq<char>|
            has_id(d, k) ==> #[trigger] reconciled(m, d, next).0[k].directory == last_directory(d, k),
        forall|k: Seq<char>|
            m.contains_key(k) && !has_id(d, k) ==> #[trigger] reconciled(m, d, next).0[k] == m[k],
        forall|k: Seq<char>|
            m.contains_key(k) ==> #[trigger] reconciled(m, d, next).0[k].enabled == m[k].enabled
                && reconciled(m, d, next).0[k].order == m[k].order,
        forall|k: Seq<char>|
            !m.contains_key(k) && has_id(d, k) ==> !(#[trigger] reconciled(m, d, next).0[k]).enabled
                && next <= reconciled(m, d, next).0[k].order as int && (reconciled(
                m,
                d,
                next,
            ).0[k].order as int) < reconciled(m, d, next).1,
        (forall|k: Seq<char>| has_id(d, k) ==> m.contains_key(k)) ==> reconciled(m, d, next).1
            == next,
    decreases d.len(),
{
    let r = reconciled(m, d, next);
    if d.len() == 0 {
        assert(r == (m, next));
        assert forall|k: Seq<char>| !has_id(d, k) by {}
    } else {
        let x = d[0];
        let rest = d.drop_first();
        let r1 = reconcile_step(m, next, x.0, x.1);
        assert(r == reconciled(r1.0, rest, r1.1));
        lemma_reconciled(r1.0, rest, r1.1);
        assert forall|k: Seq<char>| #[trigger] r.0.contains_key(k) <==> (m.contains_key(k) || has_id(d, k)) by {
            lemma_has_id_split(d, k);
        }
        assert forall|k: Seq<char>| has_id(d, k) implies #[trigger] r.0[k].directory == last_directory(d, k) by {
            lemma_has_id_split(d, k);
        }
        assert forall|k: Seq<char>| m.contains_key(k) && !has_id(d, k) implies #[trigger] r.0[k] == m[k] by {
            lemma_has_id_split(d, k);
        }
        assert forall|k: Seq<char>| m.contains_key(k) implies #[trigger] r.0[k].enabled == m[k].enabled
            && r.0[k].order == m[k].order by {
            lemma_has_id_split(d, k);
            assert(r1.0.contains_key(k));
            assert(r1.0[k].enabled == m[k].enabled && r1.0[k].order == m[k].order);
            let r2 = reconciled(r1.0, rest, r1.1).0;
            assert(r2[k].enabled == r1.0[k].enabled);
        }
        assert forall|k: Seq<char>| !m.contains_key(k) && has_id(d, k) implies !(#[trigger] r.0[k]).enabled
            && next <= r.0[k].order as int && (r.0[k].order as int) < r.1 by {
            lemma_has_id_split(d, k);
            if k == x.0 {
                assert(r1.0.contains_key(k));
                assert(r1.0[k].order as int == next);
            }
        }
        if forall|k: Seq<char>| has_id(d, k) ==> m.contains_key(k) {
            assert(has_id(d, x.0)) by {
                assert(d[0].0 == x.0);
            }
            assert(m.contains_key(x.0));
            assert forall|k: Seq<char>| has_id(rest, k) implies r1.0.contains_key(k) by {
                lemma_has_id_split(d, k);
            }
        }
    }
}

/// The order after the largest registered one (`max + 1`, or 0 when empty).
fn next_free_order(runtime: &PluginRuntimeConfig) -> (next: i32)
    requires
        max_order(runtime.entries()) < i32::MAX,
    ensures
        next as int == first_free_order(runtime),
{
    let n = runtime.len();
    let mut max: i32 = -1;
    let mut i: usize = 0;
    while i < n
        invariant
            n == runtime.entries().len(),
            i <= n,
            max as int == max_order(runtime.entries().take(i as int)),
        decreases n - i,
    {
        let order = runtime.entry_at(i).order;
        let ghost s = runtime.entries().take(i + 1);
        assert(s.drop_last() =~= runtime.entries().take(i as int));
        assert(s.last().1.order == order);
        if i == 0 || order > max {
            max = order;
        }
        i = i + 1;
    }
    assert(runtime.entries().take(n as int) =~= runtime.entries());
    max + 1
}

proof fn lemma_max_order_range(s: Seq<(Seq<char>, EntrySpec)>)
    ensures
        i32::MIN <= max_order(s) <= i32::MAX,
    decreases s.len(),
{
    if s.len() > 1 {
        lemma_max_order_range(s.drop_last());
    }
}

/// Takes a directory scan into the registry: a plugin seen for the first time
/// is registered disabled with the next free order (after every existing one);
/// an already registered plugin keeps its enabled flag and order and moves to
/// the scanned directory. Returns how many plugins were newly registered.
pub fn reconcile_scanned_plugins(
    runtime: &mut PluginRuntimeConfig,
    discovered: Vec<(String, String)>,
) -> (added: usize)
    requires
        reconciled(old(runtime)@, pairs_view(discovered@), first_free_order(old(runtime))).1
            <= i32::MAX,
    ensures
        final(runtime)@ == reconciled(
            old(runtime)@,
            pairs_view(discovered@),
            first_free_order(old(runtime)),
        ).0,
        added as int == reconciled(
            old(runtime)@,
            pairs_view(discovered@),
            first_free_order(old(runtime)),
        ).1 - first_free_order(old(runtime)),
{
    let ghost m0 = runtime@;
    let ghost d = pairs_view(discovered@);
    let ghost n0 = first_free_order(runtime);
    proof {
        lemma_max_order_range(runtime.entries());
        lemma_reconciled(m0, d, n0);
    }
    let mut next = next_free_order(runtime);
    let mut added: usize = 0;
    let mut i: usize = 0;
    assert(d.skip(0) =~= d);
    while i < discovered.len()
        invariant
            d == pairs_view(discovered@),
            i <= discovered@.len(),
            i32::MIN < n0 <= next,
            added as int == next - n0,
            reconciled(m0, d, n0) == reconciled(runtime@, d.skip(i as int), next as int),
            reconciled(m0, d, n0).1 <= i32::MAX,
        decreases discovered@.len() - i,
    {
        let id = discovered[i].0.clone();
        let dir = discovered[i].1.clone();
        let ghost rest = d.skip(i as int);
        assert(rest[0] == (id@, dir@));
        assert(rest.drop_first() =~= d.skip(i + 1));
        let ghost step = reconcile_step(runtime@, next as int, id@, dir@);
        let existing = match runtime.get(id.as_str()) {
            Some(entry) => Some(entry.duplicate()),
            None => None,
        };
        match existing {
            Some(entry) => {
                let mut entry = entry;
                entry.directory = dir;
                runtime.insert(id, entry);
                assert(runtime@ =~= step.0);
            },
            None => {
                proof {
                    lemma_reconciled(step.0, d.skip(i + 1), step.1);
                }
                runtime.insert(id, PluginEntryState { enabled: false, order: next, directory: dir });
                assert(runtime@ =~= step.0);
                next = next + 1;
                added = added + 1;
            },
        }
        i = i + 1;
    }
    assert(d.skip(i as int) =~= Seq::<(Seq<char>, Seq<char>)>::empty());
    added
}

/// Reconciling a scan in which every plugin is already registered adds
/// nothing: only directories move, to the last one seen.
proof fn lemma_reconcile_registered(m: Map<Seq<char>, EntrySpec>, d: Seq<(Seq<char>, Seq<char>)>, next: int)
    requires
        forall|k: Seq<char>| has_id(d, k) ==> m.contains_key(k),
    ensures
        reconciled(m, d, next).1 == next,
        reconciled(m, d, next).0.dom() == m.dom(),
        forall|k: Seq<char>|
            has_id(d, k) ==> #[trigger] reconciled(m, d, next).0[k] == (EntrySpec {
                enabled: m[k].enabled,
                order: m[k].order,
                directory: last_directory(d, k),
            }),
        forall|k: Seq<char>|
            m.contains_key(k) && !has_id(d, k) ==> #[trigger] reconciled(m, d, next).0[k] == m[k],
    decreases d.len(),
{
    if d.len() == 0 {
        assert forall|k: Seq<char>| !has_id(d, k) by {}
    } else {
        let x = d[0];
        let rest = d.drop_first();
        assert(has_id(d, x.0)) by {
            assert(d[0].0 == x.0);
        }
        let r1 = reconcile_step(m, next, x.0, x.1);
        assert forall|k: Seq<char>| has_id(rest, k) implies r1.0.contains_key(k) by {
            lemma_has_id_split(d, k);
        }
        lemma_reconcile_registered(r1.0, rest, r1.1);
        let r = reconciled(m, d, next);
        assert(r == reconciled(r1.0, rest, r1.1));
        assert(r1.0.dom() =~= m.dom());
        assert forall|k: Seq<char>| has_id(d, k) implies #[trigger] r.0[k] == (EntrySpec {
            enabled: m[k].enabled,
            order: m[k].order,
            directory: last_directory(d, k),
        }) by {
            lemma_has_id_split(d, k);
        }
        assert forall|k: Seq<char>| m.contains_key(k) && !has_id(d, k) implies #[trigger] r.0[k]
            == m[k] by {
            lemma_has_id_split(d, k);
        }
    }
}

/// A plugin that was registered before a scan keeps its enabled flag and its
/// order.
pub proof fn reconcile_keeps_existing_state(
    m: Map<Seq<char>, EntrySpec>,
    d: Seq<(Seq<char>, Seq<char>)>,
    next: int,
    id: Seq<char>,
)
    requires
        i32::MIN <= next,
        reconciled(m, d, next).1 <= i32::MAX,
        m.contains_key(id),
    ensures
        reconciled(m, d, next).0.contains_key(id),
        reconciled(m, d, next).0[id].enabled == m[id].enabled,
        reconciled(m, d, next).0[id].order == m[id].order,
{
    lemma_reconciled(m, d, next);
    assert(reconciled(m, d, next).0[id].enabled == m[id].enabled);
}

/// Every scanned plugin is registered afterwards, under the directory in which
/// it was seen last; one seen for the first time is disabled.
pub proof fn reconcile_registers_scanned_plugins(
    m: Map<Seq<char>, EntrySpec>,
    d: Seq<(Seq<char>, Seq<char>)>,
    next: int,
    id: Seq<char>,
)
    requires
        i32::MIN <= next,
        reconciled(m, d, next).1 <= i32::MAX,
        has_id(d, id),
    ensures
        reconciled(m, d, next).0.contains_key(id),
        reconciled(m, d, next).0[id].directory == last_directory(d, id),
        !m.contains_key(id) ==> !reconciled(m, d, next).0[id].enabled,
{
    lemma_reconciled(m, d, next);
}

/// Every order that a registry holds is at most `max_order` of its listing.
proof fn lemma_max_order_bounds(s: Seq<(Seq<char>, EntrySpec)>, i: int)
    requires
        0 <= i < s.len(),
    ensures
        s[i].1.order as int <= max_order(s),
    decreases s.len(),
{
    if s.len() > 1 && i < s.len() - 1 {
        lemma_max_order_bounds(s.drop_last(), i);
    }
}

/// A plugin registered by a scan sorts after every plugin that was registered
/// before it: its order is larger than all earlier orders.
pub proof fn reconcile_orders_new_after_existing(
    runtime: &PluginRuntimeConfig,
    d: Seq<(Seq<char>, Seq<char>)>,
    new_id: Seq<char>,
    old_id: Seq<char>,
)
    requires
        reconciled(runtime@, d, first_free_order(runtime)).1 <= i32::MAX,
        !runtime@.contains_key(new_id),
        has_id(d, new_id),
        runtime@.contains_key(old_id),
    ensures
        reconciled(runtime@, d, first_free_order(runtime)).0[old_id].order < reconciled(
            runtime@,
            d,
            first_free_order(runtime),
        ).0[new_id].order,
{
    let s = runtime.entries();
    runtime.lemma_entries_from_view();
    lemma_max_order_range(s);
    let i = choose|i: int| 0 <= i < s.len() && s[i].0 == old_id && s[i].1 == runtime@[old_id];
    lemma_max_order_bounds(s, i);
    let next = first_free_order(runtime);
    lemma_reconciled(runtime@, d, next);
    let r = reconciled(runtime@, d, next);
    assert(r.0[old_id].enabled == runtime@[old_id].enabled);
    assert(!r.0[new_id].enabled);
}

/// Reconciling the same scan a second time changes nothing and registers
/// nothing new.
pub proof fn reconcile_is_idempotent(
    m: Map<Seq<char>, EntrySpec>,
    d: Seq<(Seq<char>, Seq<char>)>,
    next: int,
    next_again: int,
)
    requires
        i32::MIN <= next,
        reconciled(m, d, next).1 <= i32::MAX,
    ensures
        reconciled(reconciled(m, d, next).0, d, next_again) == (reconciled(m, d, next).0, next_again),
{
    let r = reconciled(m, d, next).0;
    lemma_reconciled(m, d, next);
    lemma_reconcile_registered(r, d, next_again);
    let r2 = reconciled(r, d, next_again).0;
    assert forall|k: Seq<char>| r2.contains_key(k) implies r2[k] == r[k] by {
        if has_id(d, k) {
            assert(r[k].directory == last_directory(d, k));
        }
    }
    assert(r2 =~= r);
}

/// The ids of a scan that are not in `known`, each once, in the order in
/// which the scan first names them.
pub open spec fn newly_registered(known: Set<Seq<char>>, d: Seq<(Seq<char>, Seq<char>)>) -> Seq<
    Seq<char>,
>
    decreases d.len(),
{
    if d.len() == 0 {
        Seq::empty()
    } else if known.contains(d[0].0) {
        newly_registered(known, d.drop_first())
    } else {
        seq![d[0].0] + newly_registered(known.insert(d[0].0), d.drop_first())
    }
}

/// The newly registered ids are exactly the scanned ids not yet known, and
/// none of them comes twice.
proof fn lemma_newly_registered(known: Set<Seq<char>>, d: Seq<(Seq<char>, Seq<char>)>)
    ensures
        forall|k: Seq<char>|
            #[trigger] newly_registered(known, d).contains(k) <==> (!known.contains(k) && has_id(
                d,
                k,
            )),
        newly_registered(known, d).no_duplicates(),
    decreases d.len(),
{
    let ids = newly_registered(known, d);
    if d.len() == 0 {
        assert forall|k: Seq<char>| !has_id(d, k) by {}
    } else {
        let x = d[0].0;
        let rest = d.drop_first();
        if known.contains(x) {
            lemma_newly_registered(known, rest);
            assert forall|k: Seq<char>| #[trigger] ids.contains(k) <==> (!known.contains(k)
                && has_id(d, k)) by {
                lemma_has_id_split(d, k);
            }
        } else {
            let tail = newly_registered(known.insert(x), rest);
            lemma_newly_registered(known.insert(x), rest);
            assert(ids == seq![x] + tail);
            assert forall|k: Seq<char>| #[trigger] ids.contains(k) <==> (!known.contains(k)
                && has_id(d, k)) by {
                lemma_has_id_split(d, k);
                if tail.contains(k) {
                    let j = choose|j: int| 0 <= j < tail.len() && tail[j] == k;
                    assert(ids[j + 1] == k);
                }
                if ids.contains(k) && k != x {
                    let j = choose|j: int| 0 <= j < ids.len() && ids[j] == k;
                    assert(tail[j - 1] == k);
                }
                if k == x {
                    assert(ids[0] == k);
                }
            }
            assert forall|a: int, b: int| 0 <= a < b < ids.len() implies ids[a] != ids[b] by {
                if a == 0 {
                    assert(tail[b - 1] == ids[b]);
                    assert(tail.contains(ids[b]));
                } else {
                    assert(tail[a - 1] == ids[a] && tail[b - 1] == ids[b]);
                }
            }
        }
    }
}

/// New ids are numbered `next`, `next + 1`, ... in the order in which the
/// scan first names them, and the next free order moves past all of them.
proof fn lemma_reconciled_numbering(
    m: Map<Seq<char>, EntrySpec>,
    d: Seq<(Seq<char>, Seq<char>)>,
    next: int,
)
    requires
        i32::MIN <= next,
        reconciled(m, d, next).1 <= i32::MAX,
    ensures
        reconciled(m, d, next).1 == next + newly_registered(m.dom(), d).len(),
        forall|j: int|
            0 <= j < newly_registered(m.dom(), d).len() ==> reconciled(m, d, next).0.contains_key(
                #[trigger] newly_registered(m.dom(), d)[j],
            ) && reconciled(m, d, next).0[newly_registered(m.dom(), d)[j]].order as int == next
                + j,
    decreases d.len(),
{
    if d.len() > 0 {
        let x = d[0];
        let rest = d.drop_first();
        let r1 = reconcile_step(m, next, x.0, x.1);
        let r = reconciled(m, d, next);
        assert(r == reconciled(r1.0, rest, r1.1));
        lemma_reconciled(r1.0, rest, r1.1);
        lemma_reconciled_numbering(r1.0, rest, r1.1);
        let ids = newly_registered(m.dom(), d);
        if m.contains_key(x.0) {
            assert(r1.0.dom() =~= m.dom());
            assert(ids == newly_registered(r1.0.dom(), rest));
        } else {
            assert(r1.0.dom() =~= m.dom().insert(x.0));
            let tail = newly_registered(r1.0.dom(), rest);
            assert(ids == seq![x.0] + tail);
            assert forall|j: int| 0 <= j < ids.len() implies r.0.contains_key(#[trigger] ids[j])
                && r.0[ids[j]].order as int == next + j by {
                if j == 0 {
                    assert(r1.0.contains_key(x.0));
                    assert(r1.0[x.0].order == next as i32);
                    assert(r.1 >= next + 1);
                    assert(reconciled(r1.0, rest, r1.1).0[x.0].enabled == r1.0[x.0].enabled);
                    assert(r.0[x.0].order == r1.0[x.0].order);
                } else {
                    assert(ids[j] == tail[j - 1]);
                }
            }
        }
    }
}

/// A scan numbers the plugins it registers for the first time after the
/// largest order already registered (or from 0 when none is): `max + 1`,
/// `max + 2`, ... in the order in which the scan first names them, and it
/// registers exactly those plugins, so `reconcile_scanned_plugins` returns
/// their number.
pub proof fn reconcile_numbers_new_plugins(runtime: &PluginRuntimeConfig, d: Seq<(Seq<char>, Seq<char>)>)
    requires
        reconciled(runtime@, d, first_free_order(runtime)).1 <= i32::MAX,
    ensures
        ({
            let ids = newly_registered(runtime@.dom(), d);
            let r = reconciled(runtime@, d, first_free_order(runtime));
            &&& r.1 - first_free_order(runtime) == ids.len()
            &&& ids.no_duplicates()
            &&& forall|k: Seq<char>|
                #[trigger] ids.contains(k) <==> (!runtime@.contains_key(k) && has_id(d, k))
            &&& forall|j: int|
                0 <= j < ids.len() ==> r.0[#[trigger] ids[j]].order as int == max_order(
                    runtime.entries(),
                ) + 1 + j
        }),
{
    lemma_max_order_range(runtime.entries());
    lemma_reconciled_numbering(runtime@, d, first_free_order(runtime));
    lemma_newly_registered(runtime@.dom(), d);
}

/// The plain value of a list of plugin ids.
pub open spec fn ids_view(ids: Seq<String>) -> Seq<Seq<char>> {
    ids.map_values(|id: String| id@)
}

/// Gives the registered ids in `ids`, in turn, the orders `next`, `next + 1`,
/// ...; ids that are not registered are passed over.
pub open spec fn assign_orders(m: Map<Seq<char>, EntrySpec>, ids: Seq<Seq<char>>, next: int) -> (
    Map<Seq<char>, EntrySpec>,
    int,
)
    decreases ids.len(),
{
    if ids.len() == 0 {
        (m, next)
    } else if m.contains_key(ids[0]) {
        assign_orders(
            m.insert(
                ids[0],
                EntrySpec {
                    enabled: m[ids[0]].enabled,
                    order: next as i32,
                    directory: m[ids[0]].directory,
                },
            ),
            ids.drop_first(),
            next + 1,
        )
    } else {
        assign_orders(m, ids.drop_first(), next)
    }
}

/// The registrations that a reorder request does not name, as (order, id)
/// items in id order.
pub open spec fn remaining_items(entries: Seq<(Seq<char>, EntrySpec)>, requested: Seq<Seq<char>>) -> Seq<
    (i32, Seq<char>, usize),
>
    decreases entries.len(),
{
    if entries.len() == 0 {
        Seq::empty()
    } else {
        let r = remaining_items(entries.drop_last(), requested);
        if requested.contains(entries.last().0) {
            r
        } else {
            r.push((entries.last().1.order, entries.last().0, 0usize))
        }
    }
}

/// The ids of a list of sort items.
pub open spec fn item_ids(s: Seq<(i32, Seq<char>, usize)>) -> Seq<Seq<char>> {
    s.map_values(|x: (i32, Seq<char>, usize)| x.1)
}

proof fn lemma_assign_orders(m: Map<Seq<char>, EntrySpec>, ids: Seq<Seq<char>>, next: int)
    ensures
        assign_orders(m, ids, next).0.dom() == m.dom(),
        next <= assign_orders(m, ids, next).1 <= next + ids.len(),
        (forall|i: int| 0 <= i < ids.len() ==> m.contains_key(#[trigger] ids[i])) ==> assign_orders(
            m,
            ids,
            next,
        ).1 == next + ids.len(),
    decreases ids.len(),
{
    if ids.len() > 0 {
        let m1 = if m.contains_key(ids[0]) {
            m.insert(
                ids[0],
                EntrySpec {
                    enabled: m[ids[0]].enabled,
                    order: next as i32,
                    directory: m[ids[0]].directory,
                },
            )
        } else {
            m
        };
        let n1 = if m.contains_key(ids[0]) {
            next + 1
        } else {
            next
        };
        lemma_assign_orders(m1, ids.drop_first(), n1);
        assert(m1.dom() =~= m.dom());
        if forall|i: int| 0 <= i < ids.len() ==> m.contains_key(#[trigger] ids[i]) {
            assert(m.contains_key(ids[0]));
            assert forall|i: int| 0 <= i < ids.drop_first().len() implies m1.contains_key(
                #[trigger] ids.drop_first()[i],
            ) by {
                assert(ids.drop_first()[i] == ids[i + 1]);
            }
        }
    }
}

/// Whether `id` is among `ids`.
fn contains_id(ids: &Vec<String>, id: &str) -> (r: bool)
    ensures
        r == ids_view(ids@).contains(id@),
{
    let mut i: usize = 0;
    while i < ids.len()
        invariant
            i <= ids@.len(),
            forall|j: int| 0 <= j < i ==> ids@[j]@ != id@,
        decreases ids@.len() - i,
    {
        if chars_equal(ids[i].as_str(), id) {
            assert(ids_view(ids@)[i as int] == id@);
            return true;
        }
        i = i + 1;
    }
    assert forall|j: int| 0 <= j < ids_view(ids@).len() implies ids_view(ids@)[j] != id@ by {
        assert(ids_view(ids@)[j] == ids@[j]@);
    }
    false
}

/// Gives the listed ids the consecutive orders from `next`, in turn.
fn assign_orders_in_turn(
    runtime: &mut PluginRuntimeConfig,
    ids: &Vec<String>,
    next: i32,
) -> (after: i32)
    requires
        assign_orders(old(runtime)@, ids_view(ids@), next as int).1 <= i32::MAX,
    ensures
        final(runtime)@ == assign_orders(old(runtime)@, ids_view(ids@), next as int).0,
        after as int == assign_orders(old(runtime)@, ids_view(ids@), next as int).1,
{
    let ghost m0 = runtime@;
    let ghost s = ids_view(ids@);
    let ghost n0 = next as int;
    let mut next = next;
    let mut i: usize = 0;
    assert(s.skip(0) =~= s);
    while i < ids.len()
        invariant
            s == ids_view(ids@),
            i <= ids@.len(),
            assign_orders(m0, s, n0) == assign_orders(runtime@, s.skip(i as int), next as int),
            assign_orders(m0, s, n0).1 <= i32::MAX,
        decreases ids@.len() - i,
    {
        let ghost rest = s.skip(i as int);
        let ghost before = runtime@;
        assert(rest[0] == ids@[i as int]@);
        assert(rest.drop_first() =~= s.skip(i + 1));
        let current = match runtime.get(ids[i].as_str()) {
            Some(entry) => Some(entry.duplicate()),
            None => None,
        };
        if let Some(entry) = current {
            let ghost m1 = before.insert(
                rest[0],
                EntrySpec {
                    enabled: before[rest[0]].enabled,
                    order: next as i32,
                    directory: before[rest[0]].directory,
                },
            );
            assert(assign_orders(before, rest, next as int) == assign_orders(
                m1,
                rest.drop_first(),
                next + 1,
            ));
            proof {
                lemma_assign_orders(m1, s.skip(i + 1), next + 1);
            }
            let mut entry = entry;
            entry.order = next;
            let key = ids[i].clone();
            runtime.insert(key, entry);
            assert(runtime@ =~= m1);
            next = next + 1;
        } else {
            assert(assign_orders(before, rest, next as int) == assign_orders(
                before,
                rest.drop_first(),
                next as int,
            ));
        }
        i = i + 1;
    }
    assert(s.skip(i as int) =~= Seq::<Seq<char>>::empty());
    next
}

/// The registrations not named in `plugin_ids`, as (order, id) items in id
/// order.
fn collect_remaining(runtime: &PluginRuntimeConfig, plugin_ids: &Vec<String>) -> (items: Vec<
    (i32, String, usize),
>)
    ensures
        items_view(items@) == remaining_items(runtime.entries(), ids_view(plugin_ids@)),
{
    let n = runtime.len();
    let mut items: Vec<(i32, String, usize)> = Vec::new();
    let mut i: usize = 0;
    while i < n
        invariant
            n == runtime.entries().len(),
            i <= n,
            items_view(items@) == remaining_items(
                runtime.entries().take(i as int),
                ids_view(plugin_ids@),
            ),
        decreases n - i,
    {
        let ghost t = runtime.entries().take(i + 1);
        assert(t.drop_last() =~= runtime.entries().take(i as int));
        let id = runtime.id_at(i);
        if !contains_id(plugin_ids, id.as_str()) {
            let order = runtime.entry_at(i).order;
            items.push((order, id.clone(), 0));
            assert(items_view(items@) =~= remaining_items(
                runtime.entries().take(i as int),
                ids_view(plugin_ids@),
            ).push((order, id@, 0usize)));
        }
        i = i + 1;
    }
    assert(runtime.entries().take(n as int) =~= runtime.entries());
    items
}

proof fn lemma_remaining_items_ids(entries: Seq<(Seq<char>, EntrySpec)>, requested: Seq<Seq<char>>)
    requires
        crate::registry::keys_ascending(entries),
    ensures
        distinct_ids(remaining_items(entries, requested)),
        forall|i: int| 0 <= i < remaining_items(entries, requested).len() ==> exists|j: int|
            0 <= j < entries.len() && entries[j].0 == (#[trigger] remaining_items(
                entries,
                requested,
            )[i]).1 && !requested.contains(entries[j].0),
        forall|j: int|
            0 <= j < entries.len() && !requested.contains(#[trigger] entries[j].0) ==> remaining_items(
                entries,
                requested,
            ).contains((entries[j].1.order, entries[j].0, 0usize)),
    decreases entries.len(),
{
    if entries.len() > 0 {
        let t = entries.drop_last();
        assert(crate::registry::keys_ascending(t));
        lemma_remaining_items_ids(t, requested);
        let r = remaining_items(t, requested);
        let r2 = remaining_items(entries, requested);
        assert forall|i: int| 0 <= i < r2.len() implies exists|j: int|
            0 <= j < entries.len() && entries[j].0 == (#[trigger] r2[i]).1 && !requested.contains(
                entries[j].0,
            ) by {
            if i < r.len() {
                assert(r2[i] == r[i]);
                let j = choose|j: int|
                    0 <= j < t.len() && t[j].0 == r[i].1 && !requested.contains(t[j].0);
                assert(entries[j] == t[j]);
            } else {
                assert(entries[entries.len() - 1].0 == r2[i].1);
            }
        }
        assert forall|a: int, b: int| 0 <= a < b < r2.len() implies (#[trigger] r2[a]).1
            != (#[trigger] r2[b]).1 by {
            if b == r.len() {
                assert(r2[a] == r[a]);
                let j = choose|j: int|
                    0 <= j < t.len() && t[j].0 == r[a].1 && !requested.contains(t[j].0);
                crate::text::lemma_seq_lt_asymmetric(entries[j].0, entries.last().0);
            } else {
                assert(r2[a] == r[a]);
                assert(r2[b] == r[b]);
            }
        }
        assert forall|j: int|
            0 <= j < entries.len() && !requested.contains(#[trigger] entries[j].0) implies r2.contains(
            (entries[j].1.order, entries[j].0, 0usize),
        ) by {
            if j < entries.len() - 1 {
                assert(t[j] == entries[j]);
                let w = choose|w: int| 0 <= w < r.len() && r[w] == (t[j].1.order, t[j].0, 0usize);
                assert(r2[w] == r[w]);
            } else {
                assert(r2[r2.len() - 1] == (entries[j].1.order, entries[j].0, 0usize));
            }
        }
    }
}

/// Rewrites the display order after a drag: the plugins named in
/// `plugin_ids` take the orders 0, 1, ... in the order given; the other
/// registered plugins follow, keeping their previous relative order (by old
/// order, then id).
pub fn apply_plugin_order(runtime: &mut PluginRuntimeConfig, plugin_ids: &Vec<String>)
    requires
        assign_orders(old(runtime)@, ids_view(plugin_ids@), 0).1 + remaining_items(
            old(runtime).entries(),
            ids_view(plugin_ids@),
        ).len() <= i32::MAX,
    ensures
        exists|rest: Seq<(i32, Seq<char>, usize)>|
            {
                &&& sorted_by_order_id(rest)
                &&& rest.to_set() == remaining_items(
                    old(runtime).entries(),
                    ids_view(plugin_ids@),
                ).to_set()
                &&& final(runtime)@ == assign_orders(
                    assign_orders(old(runtime)@, ids_view(plugin_ids@), 0).0,
                    item_ids(rest),
                    assign_orders(old(runtime)@, ids_view(plugin_ids@), 0).1,
                ).0
            },
        final(runtime)@.dom() == old(runtime)@.dom(),
        forall|k: Seq<char>|
            #[trigger] old(runtime)@.contains_key(k) ==> final(runtime)@[k].enabled == old(
                runtime,
            )@[k].enabled && final(runtime)@[k].directory == old(runtime)@[k].directory,
{
    proof {
        use_type_invariant(&*runtime);
        runtime.lemma_entries();
        lemma_remaining_items_ids(runtime.entries(), ids_view(plugin_ids@));
        lemma_assign_orders(runtime@, ids_view(plugin_ids@), 0);
    }
    let ghost m0 = runtime@;
    let ghost e0 = runtime.entries();
    let ghost rem = remaining_items(runtime.entries(), ids_view(plugin_ids@));
    let remaining = collect_remaining(runtime, plugin_ids);
    assert(distinct_items(rem)) by {
        assert forall|i: int, j: int| 0 <= i < j < rem.len() implies #[trigger] rem[i] != #[trigger] rem[j] by {
            assert(rem[i].1 != rem[j].1);
        }
    }
    let sorted = sort_by_order_id(remaining);
    let next = assign_orders_in_turn(runtime, plugin_ids, 0);
    let ghost m1 = runtime@;
    let mut names: Vec<String> = Vec::new();
    let mut i: usize = 0;
    while i < sorted.len()
        invariant
            i <= sorted@.len(),
            ids_view(names@) == item_ids(items_view(sorted@)).take(i as int),
        decreases sorted@.len() - i,
    {
        let name = sorted[i].1.clone();
        assert(item_ids(items_view(sorted@))[i as int] == name@);
        let ghost prev = ids_view(names@);
        names.push(name);
        assert(ids_view(names@) =~= prev.push(item_ids(items_view(sorted@))[i as int]));
        assert(ids_view(names@) =~= item_ids(items_view(sorted@)).take(i + 1));
        i = i + 1;
    }
    assert(ids_view(names@) =~= item_ids(items_view(sorted@)));
    proof {
        let sv = items_view(sorted@);
        // every remaining id is still registered
        assert forall|k: int| 0 <= k < item_ids(sv).len() implies m1.contains_key(
            #[trigger] item_ids(sv)[k],
        ) by {
            assert(sv.to_set().contains(sv[k]));
            assert(rem.to_set().contains(sv[k]));
            let w = choose|w: int| 0 <= w < rem.len() && rem[w] == sv[k];
            let j = choose|j: int|
                0 <= j < e0.len() && e0[j].0 == (#[trigger] rem[w]).1
                    && !ids_view(plugin_ids@).contains(e0[j].0);
            assert(m0.contains_key(e0[j].0));
        }
        lemma_assign_orders(m1, item_ids(sv), next as int);
        assert(rem.len() == sv.len()) by {
            assert(rem.no_duplicates());
            assert(sv.no_duplicates()) by {
                assert forall|a: int, b: int| 0 <= a < sv.len() && 0 <= b < sv.len() && a != b
                    implies sv[a] != sv[b] by {
                    if a < b {
                        lemma_order_id_lt_distinct(sv[a], sv[b]);
                    } else {
                        lemma_order_id_lt_distinct(sv[b], sv[a]);
                    }
                }
            }
            rem.unique_seq_to_set();
            sv.unique_seq_to_set();
        }
    }
    let _ = assign_orders_in_turn(runtime, &names, next);
    assert(sorted_by_order_id(items_view(sorted@)));
    proof {
        reorder_changes_only_orders(m0, ids_view(plugin_ids@), 0);
        reorder_changes_only_orders(m1, ids_view(names@), next as int);
        lemma_assign_orders(m1, ids_view(names@), next as int);
    }
}

/// Reordering moves plugins only: every registered plugin stays registered
/// and keeps its enabled flag and its directory; only orders change.
pub proof fn reorder_changes_only_orders(
    m: Map<Seq<char>, EntrySpec>,
    ids: Seq<Seq<char>>,
    next: int,
)
    ensures
        assign_orders(m, ids, next).0.dom() == m.dom(),
        forall|k: Seq<char>|
            #[trigger] m.contains_key(k) ==> assign_orders(m, ids, next).0[k].enabled == m[k].enabled
                && assign_orders(m, ids, next).0[k].directory == m[k].directory,
    decreases ids.len(),
{
    lemma_assign_orders(m, ids, next);
    if ids.len() > 0 {
        if m.contains_key(ids[0]) {
            let m1 = m.insert(
                ids[0],
                EntrySpec { enabled: m[ids[0]].enabled, order: next as i32, directory: m[ids[0]].directory },
            );
            reorder_changes_only_orders(m1, ids.drop_first(), next + 1);
            assert forall|k: Seq<char>| #[trigger] m.contains_key(k) implies m1.contains_key(k)
                && m1[k].enabled == m[k].enabled && m1[k].directory == m[k].directory by {}
        } else {
            reorder_changes_only_orders(m, ids.drop_first(), next);
        }
    }
}

proof fn lemma_assign_concat(
    m: Map<Seq<char>, EntrySpec>,
    a: Seq<Seq<char>>,
    b: Seq<Seq<char>>,
    next: int,
)
    ensures
        assign_orders(m, a + b, next) == assign_orders(
            assign_orders(m, a, next).0,
            b,
            assign_orders(m, a, next).1,
        ),
    decreases a.len(),
{
    if a.len() > 0 {
        assert((a + b).drop_first() =~= a.drop_first() + b);
        assert((a + b)[0] == a[0]);
        if m.contains_key(a[0]) {
            let m1 = m.insert(
                a[0],
                EntrySpec { enabled: m[a[0]].enabled, order: next as i32, directory: m[a[0]].directory },
            );
            lemma_assign_concat(m1, a.drop_first(), b, next + 1);
        } else {
            lemma_assign_concat(m, a.drop_first(), b, next);
        }
    } else {
        assert(a + b =~= b);
    }
}

proof fn lemma_assign_distinct(m: Map<Seq<char>, EntrySpec>, s: Seq<Seq<char>>, next: int)
    requires
        s.no_duplicates(),
        forall|i: int| 0 <= i < s.len() ==> m.contains_key(#[trigger] s[i]),
        i32::MIN <= next,
        next + s.len() <= i32::MAX,
    ensures
        forall|i: int|
            0 <= i < s.len() ==> #[trigger] assign_orders(m, s, next).0[s[i]].order as int == next
                + i,
        forall|k: Seq<char>|
            m.contains_key(k) && !s.contains(k) ==> #[trigger] assign_orders(m, s, next).0[k]
                == m[k],
    decreases s.len(),
{
    if s.len() > 0 {
        let t = s.drop_first();
        let m1 = m.insert(
            s[0],
            EntrySpec { enabled: m[s[0]].enabled, order: next as i32, directory: m[s[0]].directory },
        );
        assert(m.contains_key(s[0]));
        assert(t.no_duplicates()) by {
            assert forall|a: int, b: int| 0 <= a < t.len() && 0 <= b < t.len() && a != b implies t[a]
                != t[b] by {
                assert(t[a] == s[a + 1] && t[b] == s[b + 1]);
            }
        }
        assert forall|i: int| 0 <= i < t.len() implies m1.contains_key(#[trigger] t[i]) by {
            assert(t[i] == s[i + 1]);
        }
        lemma_assign_distinct(m1, t, next + 1);
        let r = assign_orders(m, s, next).0;
        assert(r == assign_orders(m1, t, next + 1).0);
        assert(!t.contains(s[0])) by {
            if t.contains(s[0]) {
                let w = choose|w: int| 0 <= w < t.len() && t[w] == s[0];
                assert(s[w + 1] == s[0]);
            }
        }
        assert forall|i: int| 0 <= i < s.len() implies #[trigger] r[s[i]].order as int == next + i by {
            if i > 0 {
                assert(s[i] == t[i - 1]);
            }
        }
        assert forall|k: Seq<char>| m.contains_key(k) && !s.contains(k) implies #[trigger] r[k]
            == m[k] by {
            if t.contains(k) {
                let w = choose|w: int| 0 <= w < t.len() && t[w] == k;
                assert(s[w + 1] == k);
            }
            assert(k != s[0]) by {
                assert(s[0] == s[0]);
                if k == s[0] {
                    assert(s.contains(s[0]));
                }
            }
        }
    }
}

/// The ids left to a reorder's second phase: distinct, registered, none of
/// them requested, and every unrequested registered id among them.
#[verifier::spinoff_prover]
proof fn lemma_rest_ids(
    runtime: &PluginRuntimeConfig,
    ids: Seq<Seq<char>>,
    rest: Seq<(i32, Seq<char>, usize)>,
)
    requires
        runtime.ids_ascending(),
        sorted_by_order_id(rest),
        rest.to_set() == remaining_items(runtime.entries(), ids).to_set(),
    ensures
        item_ids(rest).no_duplicates(),
        forall|i: int|
            0 <= i < item_ids(rest).len() ==> !ids.contains(#[trigger] item_ids(rest)[i])
                && runtime@.contains_key(item_ids(rest)[i]),
        forall|k: Seq<char>|
            runtime@.contains_key(k) && !ids.contains(k) ==> #[trigger] item_ids(rest).contains(k),
        rest.len() == remaining_items(runtime.entries(), ids).len(),
{
    let m = runtime@;
    let e = runtime.entries();
    runtime.lemma_entries();
    lemma_remaining_items_ids(e, ids);
    let rem = remaining_items(e, ids);
    let ri = item_ids(rest);
    assert forall|i: int| 0 <= i < rest.len() implies #[trigger] rem.contains(rest[i]) by {
        assert(rest.to_set().contains(rest[i]));
    }
    assert forall|a: int, b: int| 0 <= a < ri.len() && 0 <= b < ri.len() && a != b implies ri[a]
        != ri[b] by {
        assert(rem.contains(rest[a]) && rem.contains(rest[b]));
        let wa = choose|w: int| 0 <= w < rem.len() && rem[w] == rest[a];
        let wb = choose|w: int| 0 <= w < rem.len() && rem[w] == rest[b];
        if a < b {
            lemma_order_id_lt_distinct(rest[a], rest[b]);
        } else {
            lemma_order_id_lt_distinct(rest[b], rest[a]);
        }
        if wa < wb {
            assert(rem[wa].1 != rem[wb].1);
        } else if wb < wa {
            assert(rem[wb].1 != rem[wa].1);
        }
    }
    assert forall|i: int| 0 <= i < ri.len() implies !ids.contains(#[trigger] ri[i]) && m.contains_key(
        ri[i],
    ) by {
        assert(rem.contains(rest[i]));
        let w = choose|w: int| 0 <= w < rem.len() && rem[w] == rest[i];
        let j = choose|j: int|
            0 <= j < e.len() && e[j].0 == (#[trigger] rem[w]).1 && !ids.contains(e[j].0);
    }
    assert forall|k: Seq<char>| m.contains_key(k) && !ids.contains(k) implies #[trigger] ri.contains(k) by {
        let j = choose|j: int| 0 <= j < e.len() && e[j].0 == k && e[j].1 == m[k];
        assert(rem.contains((e[j].1.order, e[j].0, 0usize)));
        assert(rest.to_set().contains((e[j].1.order, e[j].0, 0usize)));
        let w = choose|w: int| 0 <= w < rest.len() && rest[w] == (e[j].1.order, e[j].0, 0usize);
        assert(ri[w] == k);
    }
    assert(rest.no_duplicates()) by {
        assert forall|a: int, b: int| 0 <= a < rest.len() && 0 <= b < rest.len() && a != b implies rest[a]
            != rest[b] by {
            assert(ri[a] == rest[a].1 && ri[b] == rest[b].1);
        }
    }
    assert(rem.no_duplicates());
    rem.unique_seq_to_set();
    rest.unique_seq_to_set();
}

/// After a reorder request that names distinct registered plugins, the i-th
/// named plugin has order i and no two registered plugins share an order.
#[verifier::spinoff_prover]
pub proof fn reorder_gives_distinct_orders(
    runtime: &PluginRuntimeConfig,
    ids: Seq<Seq<char>>,
    rest: Seq<(i32, Seq<char>, usize)>,
)
    requires
        runtime.ids_ascending(),
        ids.no_duplicates(),
        forall|i: int| 0 <= i < ids.len() ==> runtime@.contains_key(#[trigger] ids[i]),
        assign_orders(runtime@, ids, 0).1 + remaining_items(runtime.entries(), ids).len()
            <= i32::MAX,
        sorted_by_order_id(rest),
        rest.to_set() == remaining_items(runtime.entries(), ids).to_set(),
    ensures
        ({
            let f = assign_orders(
                assign_orders(runtime@, ids, 0).0,
                item_ids(rest),
                assign_orders(runtime@, ids, 0).1,
            ).0;
            &&& f.dom() == runtime@.dom()
            &&& forall|i: int| 0 <= i < ids.len() ==> f[#[trigger] ids[i]].order as int == i
            &&& forall|a: Seq<char>, b: Seq<char>|
                f.contains_key(a) && f.contains_key(b) && a != b ==> #[trigger] f[a].order
                    != #[trigger] f[b].order
        }),
{
    let m = runtime@;
    lemma_rest_ids(runtime, ids, rest);
    let ri = item_ids(rest);
    lemma_assign_orders(m, ids, 0);
    lemma_assign_concat(m, ids, ri, 0);
    let c = ids + ri;
    assert(c.no_duplicates()) by {
        assert forall|a: int, b: int| 0 <= a < c.len() && 0 <= b < c.len() && a != b implies c[a]
            != c[b] by {
            if a < ids.len() && b >= ids.len() {
                assert(c[b] == ri[b - ids.len()]);
                assert(!ids.contains(ri[b - ids.len()]));
            } else if b < ids.len() && a >= ids.len() {
                assert(c[a] == ri[a - ids.len()]);
                assert(!ids.contains(ri[a - ids.len()]));
            } else if a >= ids.len() {
                assert(c[a] == ri[a - ids.len()]);
                assert(c[b] == ri[b - ids.len()]);
            }
        }
    }
    assert forall|i: int| 0 <= i < c.len() implies m.contains_key(#[trigger] c[i]) by {
        if i >= ids.len() {
            assert(c[i] == ri[i - ids.len()]);
        }
    }
    lemma_assign_distinct(m, c, 0);
    lemma_assign_orders(m, c, 0);
    let f = assign_orders(m, c, 0).0;
    assert forall|k: Seq<char>| m.contains_key(k) implies c.contains(k) by {
        if ids.contains(k) {
            let w = choose|w: int| 0 <= w < ids.len() && ids[w] == k;
            assert(c[w] == k);
        } else {
            assert(ri.contains(k));
            let w = choose|w: int| 0 <= w < ri.len() && ri[w] == k;
            assert(c[ids.len() + w] == k);
        }
    }
    assert forall|i: int| 0 <= i < ids.len() implies f[#[trigger] ids[i]].order as int == i by {
        assert(c[i] == ids[i]);
    }
    assert forall|a: Seq<char>, b: Seq<char>|
        f.contains_key(a) && f.contains_key(b) && a != b implies #[trigger] f[a].order
        != #[trigger] f[b].order by {
        assert(c.contains(a) && c.contains(b));
        let wa = choose|w: int| 0 <= w < c.len() && c[w] == a;
        let wb = choose|w: int| 0 <= w < c.len() && c[w] == b;
        assert(f[c[wa]].order as int == wa);
        assert(f[c[wb]].order as int == wb);
    }
}

} // verus!

//! The block list an operator exports: approved or blocked incidents of the
//! local database, merged with what the cluster's edge route denies, in
//! address order.
use vstd::prelude::*;
use crate::db::queries::{ActionDb, IncidentDb};
use crate::json::{Json, JsonValue};
use crate::k8s::blocker::IpFamily;
use crate::text::{own, seq_less, str_less, str_eq, lemma_seq_less_irreflexive, lemma_seq_less_transitive,
    lemma_seq_less_total};
use crate::web::api::{BlockListEntry, block_evidence_summary, cidr_for_export_ip, cluster_only_block_entry,
    evidence_summary_of, ip_from_cidr, ip_of_cidr, opt_chars};

verus! {

/// An incident belongs on the list once approved or once a block action
/// was recorded for it.
pub open spec fn listed(incident: IncidentDb, has_block_action: bool) -> bool {
    incident.status@ == "approved"@ || has_block_action
}

/// The CIDR text of an address of the given family.
pub open spec fn cidr_text(ip: Seq<char>, family: Option<IpFamily>) -> Seq<char> {
    match family {
        Some(IpFamily::V4) => ip + "/32"@,
        Some(IpFamily::V6) => ip + "/128"@,
        None => ip,
    }
}

/// `e` is the local entry of `incident`.
pub open spec fn local_entry(
    e: BlockListEntry,
    incident: IncidentDb,
    details: Option<Json>,
    family: Option<IpFamily>,
    block_status: Option<Seq<char>>,
    report_sent_at: Option<Seq<char>>,
) -> bool {
    &&& e.ip@ == incident.source_ip@
    &&& e.cidr@ == cidr_text(incident.source_ip@, family)
    &&& e.source@ == "local_db"@
    &&& e.cluster_blocked is None
    &&& e.block_applied == (block_status == Some("completed"@))
    &&& opt_chars(e.incident_id) == Some(incident.id@)
    &&& opt_chars(e.incident_status) == Some(incident.status@)
    &&& e.failure_count == Some(incident.failure_count)
    &&& opt_chars(e.detected_at) == Some(incident.detected_at@)
    &&& opt_chars(e.block_action_status) == block_status
    &&& opt_chars(e.report_sent_at) == report_sent_at
    &&& e.evidence_summary@ == evidence_summary_of(details)
}

/// The local entry of an incident whose details parsed as `details`, given
/// its latest block action and its latest completed report; none when the
/// incident does not belong on the list.
pub fn local_block_entry(
    incident: &IncidentDb,
    details: Option<&JsonValue>,
    family: Option<IpFamily>,
    block_action: Option<&ActionDb>,
    report_sent: Option<&ActionDb>,
) -> (r: Option<BlockListEntry>)
    ensures
        r is None <==> !listed(*incident, block_action is Some),
        r matches Some(e) ==> local_entry(
            e,
            *incident,
            match details { Some(d) => Some(d@), None => None },
            family,
            match block_action { Some(a) => Some(a.status@), None => None },
            match report_sent { Some(a) => Some(a.updated_at@), None => None },
        ),
{
    proof {
        reveal_strlit("approved");
        reveal_strlit("completed");
    }
    if !str_eq(incident.status.as_str(), "approved") && block_action.is_none() {
        return None;
    }
    let block_action_status = match block_action {
        Some(a) => Some(a.status.clone()),
        None => None,
    };
    let applied = match block_action {
        Some(a) => str_eq(a.status.as_str(), "completed"),
        None => false,
    };
    Some(BlockListEntry {
        ip: incident.source_ip.clone(),
        cidr: cidr_for_export_ip(incident.source_ip.as_str(), family),
        source: own("local_db"),
        cluster_blocked: None,
        block_applied: applied,
        incident_id: Some(incident.id.clone()),
        incident_status: Some(incident.status.clone()),
        failure_count: Some(incident.failure_count),
        detected_at: Some(incident.detected_at.clone()),
        block_action_status,
        report_sent_at: match report_sent {
            Some(a) => Some(a.updated_at.clone()),
            None => None,
        },
        evidence_summary: block_evidence_summary(details),
    })
}

/// `s` with `e` placed after every entry whose address is not above its
/// own (the insertion step of a stable sort by address).
pub open spec fn insert_by_ip(s: Seq<BlockListEntry>, e: BlockListEntry) -> Seq<BlockListEntry>
    decreases s.len(),
{
    if s.len() == 0 {
        seq![e]
    } else if seq_less(e.ip@, s.last().ip@) {
        insert_by_ip(s.drop_last(), e).push(s.last())
    } else {
        s.push(e)
    }
}

/// `s` sorted by address, entries with equal addresses in their given order.
pub open spec fn sort_by_ip(s: Seq<BlockListEntry>) -> Seq<BlockListEntry>
    decreases s.len(),
{
    if s.len() == 0 {
        seq![]
    } else {
        insert_by_ip(sort_by_ip(s.drop_last()), s.last())
    }
}

proof fn lemma_insert_at(s: Seq<BlockListEntry>, e: BlockListEntry, p: int)
    requires
        0 <= p <= s.len(),
        forall|k: int| p <= k < s.len() ==> seq_less(e.ip@, #[trigger] s[k].ip@),
        p == 0 || !seq_less(e.ip@, s[p - 1].ip@),
    ensures
        insert_by_ip(s, e) == s.take(p).push(e) + s.skip(p),
    decreases s.len(),
{
    if s.len() == 0 {
        assert(s.take(p).push(e) + s.skip(p) =~= seq![e]);
    } else if p == s.len() {
        assert(s.take(p).push(e) + s.skip(p) =~= s.push(e));
    } else {
        assert(seq_less(e.ip@, s.last().ip@));
        let t = s.drop_last();
        assert forall|k: int| p <= k < t.len() implies seq_less(e.ip@, #[trigger] t[k].ip@) by {
            assert(t[k] == s[k]);
        }
        lemma_insert_at(t, e, p);
        assert((t.take(p).push(e) + t.skip(p)).push(s.last()) =~= s.take(p).push(e) + s.skip(p));
    }
}

fn insert_sorted_by_ip(out: &mut Vec<BlockListEntry>, e: BlockListEntry)
    ensures
        final(out)@ == insert_by_ip(old(out)@, e),
{
    let ghost s = out@;
    let mut p: usize = out.len();
    while p > 0 && str_less(e.ip.as_str(), out[p - 1].ip.as_str())
        invariant
            out@ == s,
            p <= s.len(),
            forall|k: int| p <= k < s.len() ==> seq_less(e.ip@, #[trigger] s[k].ip@),
        decreases p,
    {
        p = p - 1;
    }
    proof {
        lemma_insert_at(s, e, p as int);
    }
    out.insert(p, e);
    assert(out@ =~= s.take(p as int).push(e) + s.skip(p as int));
}

/// Sorts entries by address, keeping the order of equal addresses.
pub fn sort_entries_by_ip(entries: Vec<BlockListEntry>) -> (r: Vec<BlockListEntry>)
    ensures
        r@ == sort_by_ip(entries@),
        ip_sorted(r@),
        r@.to_multiset() == entries@.to_multiset(),
{
    proof {
        law_block_list_sorted(entries@);
        law_block_list_keeps_entries(entries@);
    }
    let ghost all = entries@;
    let total = entries.len();
    let mut rest = entries;
    let mut out: Vec<BlockListEntry> = Vec::new();
    let mut i: usize = 0;
    while rest.len() > 0
        invariant
            i <= all.len(),
            rest@ == all.skip(i as int),
            total == all.len(),
            out@ == sort_by_ip(all.take(i as int)),
        decreases rest@.len(),
    {
        let e = rest.remove(0);
        proof {
            assert(all.take(i as int + 1).drop_last() =~= all.take(i as int));
            assert(all.take(i as int + 1).last() == e);
        }
        insert_sorted_by_ip(&mut out, e);
        i = i + 1;
        assert(rest@ =~= all.skip(i as int));
    }
    assert(all.take(i as int) =~= all);
    out
}

/// No entry's address sorts before an earlier one's.
pub open spec fn ip_sorted(s: Seq<BlockListEntry>) -> bool {
    forall|i: int, j: int| 0 <= i < j < s.len() ==> !seq_less(#[trigger] s[j].ip@, #[trigger] s[i].ip@)
}

proof fn lemma_not_less_transitive(a: Seq<char>, b: Seq<char>, c: Seq<char>)
    requires
        !seq_less(b, a),
        !seq_less(c, b),
    ensures
        !seq_less(c, a),
{
    if seq_less(c, a) {
        if a == b {
        } else {
            lemma_seq_less_total(a, b);
            lemma_seq_less_transitive(c, a, b);
        }
    }
}

proof fn lemma_insert_members(s: Seq<BlockListEntry>, e: BlockListEntry)
    ensures
        insert_by_ip(s, e).len() == s.len() + 1,
        forall|k: int|
            0 <= k < insert_by_ip(s, e).len() ==> (#[trigger] insert_by_ip(s, e)[k] == e || s.contains(
                insert_by_ip(s, e)[k],
            )),
    decreases s.len(),
{
    if s.len() > 0 && seq_less(e.ip@, s.last().ip@) {
        let t = s.drop_last();
        lemma_insert_members(t, e);
        assert forall|k: int| 0 <= k < insert_by_ip(s, e).len() implies (#[trigger] insert_by_ip(s, e)[k] == e
            || s.contains(insert_by_ip(s, e)[k])) by {
            if k < insert_by_ip(t, e).len() {
                let x = insert_by_ip(t, e)[k];
                if x != e {
                    let m = choose|m: int| 0 <= m < t.len() && t[m] == x;
                    assert(s[m] == x);
                }
            } else {
                assert(s[s.len() - 1] == s.last());
            }
        }
    } else if s.len() > 0 {
        assert forall|k: int| 0 <= k < insert_by_ip(s, e).len() implies (#[trigger] insert_by_ip(s, e)[k] == e
            || s.contains(insert_by_ip(s, e)[k])) by {
            if k < s.len() {
                assert(s[k] == insert_by_ip(s, e)[k]);
            }
        }
    }
}

proof fn lemma_insert_sorted(s: Seq<BlockListEntry>, e: BlockListEntry)
    requires
        ip_sorted(s),
    ensures
        ip_sorted(insert_by_ip(s, e)),
    decreases s.len(),
{
    if s.len() == 0 {
    } else if seq_less(e.ip@, s.last().ip@) {
        let t = s.drop_last();
        lemma_insert_sorted(t, e);
        lemma_insert_members(t, e);
        let r = insert_by_ip(s, e);
        let u = insert_by_ip(t, e);
        assert forall|i: int, j: int| 0 <= i < j < r.len() implies !seq_less(#[trigger] r[j].ip@, #[trigger] r[i].ip@) by {
            if j < u.len() {
                assert(r[i] == u[i] && r[j] == u[j]);
            } else {
                assert(r[j] == s.last());
                assert(r[i] == u[i]);
                if u[i] == e {
                    if seq_less(s.last().ip@, e.ip@) {
                        lemma_seq_less_transitive(s.last().ip@, e.ip@, s.last().ip@);
                        lemma_seq_less_irreflexive(s.last().ip@);
                    }
                } else {
                    let m = choose|m: int| 0 <= m < t.len() && t[m] == u[i];
                    assert(s[m] == u[i]);
                    assert(!seq_less(s[s.len() - 1].ip@, s[m].ip@));
                }
            }
        }
    } else {
        let r = s.push(e);
        assert forall|i: int, j: int| 0 <= i < j < r.len() implies !seq_less(#[trigger] r[j].ip@, #[trigger] r[i].ip@) by {
            if j < s.len() {
                assert(r[i] == s[i] && r[j] == s[j]);
            } else if i == s.len() - 1 {
                assert(r[i] == s.last());
            } else {
                assert(r[i] == s[i]);
                assert(!seq_less(s[s.len() - 1].ip@, s[i].ip@));
                lemma_not_less_transitive(s[i].ip@, s.last().ip@, e.ip@);
            }
        }
    }
}

/// The block list comes out in address order: sorting by address leaves no
/// entry whose address sorts before an earlier entry's.
pub proof fn law_block_list_sorted(s: Seq<BlockListEntry>)
    ensures
        ip_sorted(sort_by_ip(s)),
    decreases s.len(),
{
    if s.len() > 0 {
        law_block_list_sorted(s.drop_last());
        lemma_insert_sorted(sort_by_ip(s.drop_last()), s.last());
    }
}

proof fn lemma_insert_multiset(s: Seq<BlockListEntry>, e: BlockListEntry)
    ensures
        insert_by_ip(s, e).to_multiset() == s.to_multiset().insert(e),
    decreases s.len(),
{
    broadcast use vstd::seq_lib::group_to_multiset_ensures;

    if s.len() > 0 && seq_less(e.ip@, s.last().ip@) {
        let t = s.drop_last();
        lemma_insert_multiset(t, e);
        assert(s == t.push(s.last()));
        assert(insert_by_ip(s, e).to_multiset() =~= t.to_multiset().insert(e).insert(s.last()));
        assert(s.to_multiset() == t.to_multiset().insert(s.last()));
        assert(insert_by_ip(s, e).to_multiset() =~= s.to_multiset().insert(e));
    }
}

/// Sorting by address keeps every entry, each as often as it was given.
pub proof fn law_block_list_keeps_entries(s: Seq<BlockListEntry>)
    ensures
        sort_by_ip(s).to_multiset() == s.to_multiset(),
    decreases s.len(),
{
    broadcast use vstd::seq_lib::group_to_multiset_ensures;

    if s.len() > 0 {
        let t = s.drop_last();
        law_block_list_keeps_entries(t);
        lemma_insert_multiset(sort_by_ip(t), s.last());
        assert(s == t.push(s.last()));
    } else {
        assert(sort_by_ip(s) =~= s);
    }
}

/// Entry `k` is the last local entry with its address.
pub open spec fn last_of_ip(local: Seq<BlockListEntry>, k: int) -> bool {
    &&& 0 <= k < local.len()
    &&& forall|m: int| k < m < local.len() ==> (#[trigger] local[m]).ip@ != local[k].ip@
}

/// One of the first `j` cluster CIDRs has address `ip`.
pub open spec fn claimed_before(cidrs: Seq<Seq<char>>, j: int, ip: Seq<char>) -> bool {
    exists|m: int| 0 <= m < j && ip_of_cidr(#[trigger] cidrs[m]) == ip
}

/// Cluster CIDR `j` takes over local entry `k`: the last local entry of its
/// address, which no earlier CIDR of that address took.
pub open spec fn takes_over(local: Seq<BlockListEntry>, cidrs: Seq<Seq<char>>, j: int, k: int) -> bool {
    &&& last_of_ip(local, k)
    &&& local[k].ip@ == ip_of_cidr(cidrs[j])
    &&& !claimed_before(cidrs, j, local[k].ip@)
}

/// `e` keeps the incident facts of `l`.
pub open spec fn same_record(e: BlockListEntry, l: BlockListEntry) -> bool {
    &&& e.incident_id == l.incident_id
    &&& e.incident_status == l.incident_status
    &&& e.failure_count == l.failure_count
    &&& e.detected_at == l.detected_at
    &&& e.block_action_status == l.block_action_status
    &&& e.report_sent_at == l.report_sent_at
    &&& e.evidence_summary == l.evidence_summary
}

/// `e` is the entry of cluster CIDR `j`: blocked in the cluster under that
/// CIDR, with the incident facts of the local entry it takes over, or none.
pub open spec fn cluster_entry(e: BlockListEntry, local: Seq<BlockListEntry>, cidrs: Seq<Seq<char>>, j: int) -> bool {
    &&& e.ip@ == ip_of_cidr(cidrs[j])
    &&& e.cidr@ == cidrs[j]
    &&& e.source@ == "cluster"@
    &&& e.cluster_blocked == Some(true)
    &&& e.block_applied
    &&& if exists|k: int| takes_over(local, cidrs, j, k) {
        same_record(e, local[choose|k: int| takes_over(local, cidrs, j, k)])
    } else {
        &&& e.incident_id is None
        &&& e.incident_status is None
        &&& e.failure_count is None
        &&& e.detected_at is None
        &&& e.block_action_status is None
        &&& e.report_sent_at is None
        &&& e.evidence_summary@.len() == 0
    }
}

proof fn lemma_last_unique(local: Seq<BlockListEntry>, k1: int, k2: int)
    requires
        last_of_ip(local, k1),
        last_of_ip(local, k2),
        local[k1].ip@ == local[k2].ip@,
    ensures
        k1 == k2,
{
    if k1 < k2 {
        assert(local[k2].ip@ != local[k1].ip@);
    } else if k2 < k1 {
        assert(local[k1].ip@ != local[k2].ip@);
    }
}

proof fn lemma_takes_over_unique(local: Seq<BlockListEntry>, cidrs: Seq<Seq<char>>, j: int, k1: int, k2: int)
    requires
        takes_over(local, cidrs, j, k1),
        takes_over(local, cidrs, j, k2),
    ensures
        k1 == k2,
{
    if k1 < k2 {
        assert(local[k2].ip@ != local[k1].ip@);
    } else if k2 < k1 {
        assert(local[k1].ip@ != local[k2].ip@);
    }
}

/// The list as exported: without cluster data, the local entries; with it,
/// one entry per CIDR the cluster denies. Either way sorted by address.
pub fn merge_block_list(local: Vec<BlockListEntry>, cluster_cidrs: Option<Vec<String>>) -> (r: Vec<BlockListEntry>)
    ensures
        match cluster_cidrs {
            None => r@ == sort_by_ip(local@),
            Some(cidrs) => exists|pre: Seq<BlockListEntry>|
                #![auto]
                pre.len() == cidrs@.len() && (forall|j: int|
                    0 <= j < cidrs@.len() ==> cluster_entry(pre[j], local@, crate::elasticsearch::queries::texts(cidrs@), j))
                    && r@ == sort_by_ip(pre),
        },
        ip_sorted(r@),
{
    match cluster_cidrs {
        None => sort_entries_by_ip(local),
        Some(cidrs) => {
            let pre = cluster_entries(local, &cidrs);
            let r = sort_entries_by_ip(pre);
            r
        },
    }
}

fn is_last_of_ip(local: &Vec<BlockListEntry>, k: usize) -> (r: bool)
    requires
        k < local@.len(),
    ensures
        r == last_of_ip(local@, k as int),
{
    let n = local.len();
    let mut m: usize = k + 1;
    while m < n
        invariant
            n == local@.len(),
            k < m <= local@.len(),
            forall|x: int| k < x < m ==> (#[trigger] local@[x]).ip@ != local@[k as int].ip@,
        decreases local@.len() - m,
    {
        if str_eq(local[m].ip.as_str(), local[k].ip.as_str()) {
            return false;
        }
        m = m + 1;
    }
    true
}

fn cluster_entries(local: Vec<BlockListEntry>, cidrs: &Vec<String>) -> (pre: Vec<BlockListEntry>)
    ensures
        pre@.len() == cidrs@.len(),
        forall|j: int|
            0 <= j < cidrs@.len() ==> cluster_entry(
                #[trigger] pre@[j],
                local@,
                crate::elasticsearch::queries::texts(cidrs@),
                j,
            ),
{
    let ghost ls = local@;
    let ghost cs = crate::elasticsearch::queries::texts(cidrs@);
    let mut flags: Vec<bool> = Vec::new();
    let mut k: usize = 0;
    while k < local.len()
        invariant
            local@ == ls,
            k <= ls.len(),
            flags@.len() == k,
            forall|x: int| 0 <= x < k ==> flags@[x] == last_of_ip(ls, x),
        decreases ls.len() - k,
    {
        let f = is_last_of_ip(&local, k);
        flags.push(f);
        k = k + 1;
    }
    let total = local.len();
    let mut rest = local;
    let mut pool: Vec<Option<BlockListEntry>> = Vec::new();
    let mut i: usize = 0;
    while rest.len() > 0
        invariant
            i <= ls.len(),
            flags@.len() == ls.len(),
            forall|x: int| 0 <= x < ls.len() ==> flags@[x] == last_of_ip(ls, x),
            rest@ == ls.skip(i as int),
            total == ls.len(),
            pool@.len() == i,
            forall|x: int|
                0 <= x < i ==> (#[trigger] pool@[x] is Some <==> last_of_ip(ls, x)) && (pool@[x] is Some ==> pool@[x]->0
                    == ls[x]),
        decreases rest@.len(),
    {
        let e = rest.remove(0);
        assert(e == ls[i as int]);
        if flags[i] {
            pool.push(Some(e));
        } else {
            pool.push(None);
        }
        i = i + 1;
        assert(rest@ =~= ls.skip(i as int));
    }
    let mut pre: Vec<BlockListEntry> = Vec::new();
    let mut j: usize = 0;
    while j < cidrs.len()
        invariant
            cs == crate::elasticsearch::queries::texts(cidrs@),
            j <= cidrs@.len(),
            pool@.len() == ls.len(),
            forall|x: int|
                0 <= x < ls.len() ==> (#[trigger] pool@[x] is Some <==> (last_of_ip(ls, x) && !claimed_before(
                    cs,
                    j as int,
                    ls[x].ip@,
                ))) && (pool@[x] is Some ==> pool@[x]->0 == ls[x]),
            pre@.len() == j,
            forall|m: int| 0 <= m < j ==> cluster_entry(#[trigger] pre@[m], ls, cs, m),
        decreases cidrs@.len() - j,
    {
        let ip = ip_from_cidr(cidrs[j].as_str());
        assert(cs[j as int] == cidrs@[j as int]@);
        let mut k: usize = 0;
        let mut found: Option<usize> = None;
        while k < pool.len()
            invariant_except_break
                found is None,
            invariant
                pool@.len() == ls.len(),
                k <= pool@.len(),
                forall|x: int| 0 <= x < k ==> !(#[trigger] pool@[x] is Some && pool@[x]->0.ip@ == ip@),
            ensures
                found matches Some(f) ==> f < pool@.len() && pool@[f as int] is Some && pool@[f as int]->0.ip@ == ip@,
                found is None ==> forall|x: int| 0 <= x < pool@.len() ==> !(#[trigger] pool@[x] is Some && pool@[x]->0.ip@ == ip@),
            decreases pool@.len() - k,
        {
            let hit = match &pool[k] {
                Some(e) => str_eq(e.ip.as_str(), ip.as_str()),
                None => false,
            };
            if hit {
                found = Some(k);
                break;
            }
            k = k + 1;
        }
        let ghost before = pool@;
        let entry = match found {
            Some(k) => {
                let taken = pool.remove(k);
                pool.insert(k, None);
                assert(pool@ =~= before.update(k as int, None));
                proof {
                    assert(before[k as int]->0 == ls[k as int]);
                    assert(takes_over(ls, cs, j as int, k as int));
                    assert forall|x: int| takes_over(ls, cs, j as int, x) implies x == k by {
                        lemma_takes_over_unique(ls, cs, j as int, x, k as int);
                    }
                }
                match taken {
                    Some(mut e) => {
                        e.ip = ip;
                        e.cidr = cidrs[j].clone();
                        e.source = own("cluster");
                        e.cluster_blocked = Some(true);
                        e.block_applied = true;
                        e
                    },
                    None => cluster_only_block_entry(ip.as_str(), cidrs[j].as_str()),
                }
            },
            None => {
                proof {
                    assert forall|x: int| !takes_over(ls, cs, j as int, x) by {
                        if takes_over(ls, cs, j as int, x) {
                            assert(pool@[x] is Some);
                        }
                    }
                }
                cluster_only_block_entry(ip.as_str(), cidrs[j].as_str())
            },
        };
        pre.push(entry);
        proof {
            assert(ip_of_cidr(cs[j as int]) == ip@);
            assert forall|x: int|
                0 <= x < ls.len() implies (#[trigger] pool@[x] is Some <==> (last_of_ip(ls, x) && !claimed_before(
                cs,
                j as int + 1,
                ls[x].ip@,
            ))) && (pool@[x] is Some ==> pool@[x]->0 == ls[x]) by {
                if claimed_before(cs, j as int + 1, ls[x].ip@) && !claimed_before(cs, j as int, ls[x].ip@) {
                    assert(ip_of_cidr(cs[j as int]) == ls[x].ip@);
                }
                if claimed_before(cs, j as int, ls[x].ip@) {
                    let m = choose|m: int| 0 <= m < j && ip_of_cidr(#[trigger] cs[m]) == ls[x].ip@;
                    assert(0 <= m < j + 1 && ip_of_cidr(cs[m]) == ls[x].ip@);
                }
                if found is Some {
                    let f = found->0 as int;
                    if x != f && last_of_ip(ls, x) && ls[x].ip@ == ip@ {
                        lemma_last_unique(ls, x, f);
                    }
                }
                if last_of_ip(ls, x) && !claimed_before(cs, j as int + 1, ls[x].ip@) {
                    assert(ip_of_cidr(cs[j as int]) != ls[x].ip@) by {
                        if ip_of_cidr(cs[j as int]) == ls[x].ip@ {
                            assert(0 <= j < j + 1 && ip_of_cidr(cs[j as int]) == ls[x].ip@);
                        }
                    }
                }
            }
        }
        j = j + 1;
    }
    pre
}

} // verus!

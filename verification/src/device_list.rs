//! The list of connected HID devices offered in the device picker: devices
//! without a name or without ids are left out, the rest are sorted by name and
//! runs of entries with the same ids are reduced to their first.

use vstd::prelude::*;
use vstd::set_lib::{lemma_int_range, lemma_len_subset, lemma_subset_equality, set_int_range};

use crate::device::{format_device_id, spec_format_device_id};
use crate::text::{chars_lex_le, chars_of, lemma_lex_le_refl, lemma_lex_le_total, lemma_lex_le_trans, lex_le};

verus! {

/// A device as the platform enumerates it.
#[derive(Debug)]
pub struct RawDevice {
    /// Product name ("" when the device reports none).
    pub name: String,
    pub vid: i32,
    pub pid: i32,
}

/// Mathematical form of a `RawDevice`.
pub struct RawView {
    pub name: Seq<char>,
    pub vid: i32,
    pub pid: i32,
}

impl View for RawDevice {
    type V = RawView;

    open spec fn view(&self) -> RawView {
        RawView { name: self.name@, vid: self.vid, pid: self.pid }
    }
}

/// Info about a connected HID device, for the frontend picker.
#[derive(Clone, Debug)]
pub struct HidDeviceInfo {
    pub name: String,
    /// Vendor id as "0x" and four or more hexadecimal digits.
    pub vid: String,
    /// Product id as "0x" and four or more hexadecimal digits.
    pub pid: String,
}

/// Mathematical form of a `HidDeviceInfo`.
pub struct InfoView {
    pub name: Seq<char>,
    pub vid: Seq<char>,
    pub pid: Seq<char>,
}

impl View for HidDeviceInfo {
    type V = InfoView;

    open spec fn view(&self) -> InfoView {
        InfoView { name: self.name@, vid: self.vid@, pid: self.pid@ }
    }
}

/// The views of a list of raw devices.
pub open spec fn raw_views(v: Seq<RawDevice>) -> Seq<RawView> {
    v.map_values(|d: RawDevice| d@)
}

/// The views of a list of device infos.
pub open spec fn info_views(v: Seq<HidDeviceInfo>) -> Seq<InfoView> {
    v.map_values(|d: HidDeviceInfo| d@)
}

/// A device is listed when it has a name and its ids are not both zero.
pub open spec fn listable(d: RawView) -> bool {
    d.name.len() != 0 && !(d.vid == 0 && d.pid == 0)
}

/// The entry shown for a device.
pub open spec fn info_of(d: RawView) -> InfoView {
    InfoView { name: d.name, vid: spec_format_device_id(d.vid), pid: spec_format_device_id(d.pid) }
}

/// The entries of the listable devices, in enumeration order.
pub open spec fn listed(s: Seq<RawView>) -> Seq<InfoView>
    decreases s.len(),
{
    if s.len() == 0 {
        seq![]
    } else if listable(s.last()) {
        listed(s.drop_last()).push(info_of(s.last()))
    } else {
        listed(s.drop_last())
    }
}

/// Entries in order of name.
pub open spec fn sorted_by_name(s: Seq<InfoView>) -> bool {
    forall|i: int, j: int| 0 <= i < j < s.len() ==> lex_le(#[trigger] s[i].name, #[trigger] s[j].name)
}

/// `out` is `inp` stably sorted by name: `perm` gives, for each position of
/// `out`, the distinct position of `inp` it comes from; `out` is in order of
/// name, and entries with equal names keep their order.
pub open spec fn stable_sort_witness(out: Seq<InfoView>, inp: Seq<InfoView>, perm: Seq<int>) -> bool {
    &&& out.len() == inp.len()
    &&& perm.len() == inp.len()
    &&& perm.no_duplicates()
    &&& forall|k: int| 0 <= k < perm.len() ==> 0 <= #[trigger] perm[k] < inp.len()
    &&& forall|k: int| 0 <= k < out.len() ==> #[trigger] out[k] == inp[perm[k]]
    &&& sorted_by_name(out)
    &&& forall|k: int, l: int|
        0 <= k < l < out.len() && #[trigger] out[k].name == #[trigger] out[l].name ==> perm[k] < perm[l]
}

/// `out` is `inp` stably sorted by name.
pub open spec fn is_stable_sort_by_name(out: Seq<InfoView>, inp: Seq<InfoView>) -> bool {
    exists|perm: Seq<int>| stable_sort_witness(out, inp, perm)
}

/// Both entries have the same vendor and product ids.
pub open spec fn same_ids(a: InfoView, b: InfoView) -> bool {
    a.vid == b.vid && a.pid == b.pid
}

/// `s` with every entry dropped whose ids equal those of the last entry kept
/// before it (`Vec::dedup_by` on the ids).
pub open spec fn dedup_ids(s: Seq<InfoView>) -> Seq<InfoView>
    decreases s.len(),
{
    if s.len() == 0 {
        s
    } else {
        let d = dedup_ids(s.drop_last());
        if d.len() > 0 && same_ids(d.last(), s.last()) {
            d
        } else {
            d.push(s.last())
        }
    }
}

/// Sort entries by name, keeping the order of entries with equal names.
pub fn sort_by_name(v: Vec<HidDeviceInfo>) -> (out: Vec<HidDeviceInfo>)
    ensures
        is_stable_sort_by_name(info_views(out@), info_views(v@)),
{
    let ghost inp = info_views(v@);
    let n = v.len();
    let mut rest = v;
    let mut out: Vec<HidDeviceInfo> = Vec::new();
    let ghost mut perm: Seq<int> = Seq::empty();
    let mut i: usize = 0;
    assert(info_views(rest@) =~= inp.skip(0));
    while i < n
        invariant
            n == inp.len(),
            i <= n,
            info_views(rest@) == inp.skip(i as int),
            out@.len() == i,
            stable_sort_witness(info_views(out@), inp.take(i as int), perm),
        decreases n - i,
    {
        assert(info_views(rest@).len() == rest@.len());
        let ghost before = rest@;
        let x = rest.remove(0);
        let ghost xv = x@;
        assert(info_views(before)[0] == before[0]@);
        assert(xv == inp[i as int]);
        assert forall|k: int| 0 <= k < rest@.len() implies #[trigger] info_views(rest@)[k] == inp.skip(i + 1)[k] by {
            assert(rest@[k] == before[k + 1]);
            assert(info_views(before)[k + 1] == before[k + 1]@);
        }
        assert(info_views(rest@) =~= inp.skip(i + 1));
        let ghost cur = info_views(out@);
        let xname = chars_of(x.name.as_str());
        let mut p: usize = 0;
        while p < out.len() && chars_lex_le(&chars_of(out[p].name.as_str()), &xname)
            invariant
                p <= out@.len(),
                cur == info_views(out@),
                xname@ == xv.name,
                forall|k: int| 0 <= k < p ==> lex_le(#[trigger] cur[k].name, xv.name),
            decreases out@.len() - p,
        {
            p += 1;
        }
        proof {
            assert(sorted_by_name(cur));
            assert forall|k: int| p <= k < cur.len() implies !lex_le(#[trigger] cur[k].name, xv.name) by {
                assert(!lex_le(cur[p as int].name, xv.name));
                if k > p && lex_le(cur[k].name, xv.name) {
                    assert(lex_le(cur[p as int].name, cur[k].name));
                    lemma_lex_le_trans(cur[p as int].name, cur[k].name, xv.name);
                }
            }
        }
        out.insert(p, x);
        let ghost new_perm = perm.insert(p as int, i as int);
        proof {
            let nv = info_views(out@);
            let tk = inp.take(i + 1);
            assert(nv =~= cur.insert(p as int, xv));
            assert(tk =~= inp.take(i as int).push(xv));
            lemma_lex_le_refl(xv.name);
            assert forall|k: int| 0 <= k < new_perm.len() implies 0 <= #[trigger] new_perm[k] < tk.len() by {
                if k < p {
                    assert(new_perm[k] == perm[k]);
                } else if k > p {
                    assert(new_perm[k] == perm[k - 1]);
                }
            }
            assert(new_perm.no_duplicates()) by {
                assert forall|a: int, b: int| 0 <= a < new_perm.len() && 0 <= b < new_perm.len() && a != b implies new_perm[a] != new_perm[b] by {
                    let a2 = if a < p { a } else { a - 1 };
                    let b2 = if b < p { b } else { b - 1 };
                    if a != p && b != p {
                        assert(perm[a2] != perm[b2]);
                    } else if a == p {
                        assert(perm[b2] < i);
                    } else {
                        assert(perm[a2] < i);
                    }
                }
            }
            assert forall|k: int| 0 <= k < nv.len() implies #[trigger] nv[k] == tk[new_perm[k]] by {
                if k < p {
                    assert(nv[k] == cur[k]);
                    assert(new_perm[k] == perm[k]);
                } else if k > p {
                    assert(nv[k] == cur[k - 1]);
                    assert(new_perm[k] == perm[k - 1]);
                }
            }
            assert forall|a: int, b: int| 0 <= a < b < nv.len() implies lex_le(#[trigger] nv[a].name, #[trigger] nv[b].name) by {
                if a < p && b < p {
                    assert(lex_le(cur[a].name, cur[b].name));
                } else if a < p && b == p {
                } else if a < p {
                    assert(lex_le(cur[a].name, cur[b - 1].name));
                } else if a == p {
                    lemma_lex_le_total(cur[b - 1].name, xv.name);
                } else {
                    assert(lex_le(cur[a - 1].name, cur[b - 1].name));
                }
            }
            assert forall|a: int, b: int| 0 <= a < b < nv.len() && #[trigger] nv[a].name == #[trigger] nv[b].name implies new_perm[a] < new_perm[b] by {
                if a < p && b < p {
                    assert(cur[a].name == cur[b].name);
                } else if a < p && b == p {
                    assert(perm[a] < i);
                } else if a < p {
                    assert(cur[a].name == cur[b - 1].name);
                } else if a == p {
                    assert(nv[b].name == cur[b - 1].name);
                    assert(!lex_le(cur[b - 1].name, xv.name));
                } else {
                    assert(cur[a - 1].name == cur[b - 1].name);
                }
            }
            assert(stable_sort_witness(nv, tk, new_perm));
        }
        proof {
            perm = new_perm;
        }
        i += 1;
    }
    assert(inp.take(n as int) =~= inp);
    assert(stable_sort_witness(info_views(out@), inp, perm));
    out
}

/// Whether two entries have the same ids.
fn same_ids_exec(a: &HidDeviceInfo, b: &HidDeviceInfo) -> (r: bool)
    ensures
        r == same_ids(a@, b@),
{
    a.vid == b.vid && a.pid == b.pid
}

/// Drop every entry whose ids equal those of the last entry kept before it.
pub fn dedup_by_ids(v: Vec<HidDeviceInfo>) -> (out: Vec<HidDeviceInfo>)
    ensures
        info_views(out@) == dedup_ids(info_views(v@)),
{
    let ghost inp = info_views(v@);
    let n = v.len();
    let mut rest = v;
    let mut out: Vec<HidDeviceInfo> = Vec::new();
    let mut i: usize = 0;
    assert(info_views(rest@) =~= inp.skip(0));
    assert(inp.take(0) =~= Seq::<InfoView>::empty());
    while i < n
        invariant
            n == inp.len(),
            i <= n,
            info_views(rest@) == inp.skip(i as int),
            info_views(out@) == dedup_ids(inp.take(i as int)),
        decreases n - i,
    {
        assert(info_views(rest@).len() == rest@.len());
        let ghost before = rest@;
        let x = rest.remove(0);
        assert(info_views(before)[0] == before[0]@);
        assert(x@ == inp[i as int]);
        assert forall|k: int| 0 <= k < rest@.len() implies #[trigger] info_views(rest@)[k] == inp.skip(i + 1)[k] by {
            assert(rest@[k] == before[k + 1]);
            assert(info_views(before)[k + 1] == before[k + 1]@);
        }
        assert(info_views(rest@) =~= inp.skip(i + 1));
        let ghost cur = info_views(out@);
        assert(inp.take(i + 1).drop_last() =~= inp.take(i as int));
        let keep = out.len() == 0 || !same_ids_exec(&out[out.len() - 1], &x);
        if keep {
            out.push(x);
            assert(info_views(out@) =~= cur.push(inp[i as int]));
        }
        i += 1;
    }
    assert(inp.take(n as int) =~= inp);
    out
}

/// The device picker's list: the listable devices, sorted by name, with runs
/// of equal ids reduced to their first entry.
pub fn collect_hid_devices(raw: &Vec<RawDevice>) -> (out: Vec<HidDeviceInfo>)
    ensures
        exists|sorted: Seq<InfoView>|
            is_stable_sort_by_name(sorted, listed(raw_views(raw@)))
                && info_views(out@) == dedup_ids(sorted),
{
    let ghost rv = raw_views(raw@);
    let mut devices: Vec<HidDeviceInfo> = Vec::new();
    let n = raw.len();
    let mut i: usize = 0;
    assert(rv.take(0) =~= Seq::<RawView>::empty());
    while i < n
        invariant
            n == raw@.len(),
            rv == raw_views(raw@),
            i <= n,
            info_views(devices@) == listed(rv.take(i as int)),
        decreases n - i,
    {
        let d = &raw[i];
        assert(d@ == rv[i as int]);
        assert(rv.take(i + 1).drop_last() =~= rv.take(i as int));
        let ghost cur = info_views(devices@);
        if !(d.name.as_str().is_empty() || (d.vid == 0 && d.pid == 0)) {
            let info = HidDeviceInfo {
                name: d.name.clone(),
                vid: format_device_id(d.vid),
                pid: format_device_id(d.pid),
            };
            devices.push(info);
            assert(info_views(devices@) =~= cur.push(info_of(rv[i as int])));
        }
        i += 1;
    }
    assert(rv.take(n as int) =~= rv);
    let sorted = sort_by_name(devices);
    let out = dedup_by_ids(sorted);
    out
}

/// Every entry kept by `dedup_ids` is an entry of `s`, neighbours kept have
/// different ids, and a sorted `s` stays sorted.
proof fn lemma_dedup_ids(s: Seq<InfoView>)
    ensures
        forall|k: int| 0 <= k < dedup_ids(s).len() ==> s.contains(#[trigger] dedup_ids(s)[k]),
        forall|k: int| 0 <= k < dedup_ids(s).len() - 1 ==> !same_ids(#[trigger] dedup_ids(s)[k], dedup_ids(s)[k + 1]),
        sorted_by_name(s) ==> sorted_by_name(dedup_ids(s)),
    decreases s.len(),
{
    if s.len() > 0 {
        let r = s.drop_last();
        lemma_dedup_ids(r);
        let d = dedup_ids(r);
        assert forall|k: int| 0 <= k < d.len() implies s.contains(#[trigger] d[k]) by {
            let j = choose|j: int| 0 <= j < r.len() && r[j] == d[k];
            assert(s[j] == d[k]);
        }
        if !(d.len() > 0 && same_ids(d.last(), s.last())) {
            let e = d.push(s.last());
            assert(s[s.len() - 1] == s.last());
            assert forall|k: int| 0 <= k < e.len() implies s.contains(#[trigger] e[k]) by {
                if k < d.len() {
                    assert(e[k] == d[k]);
                }
            }
            assert forall|k: int| 0 <= k < e.len() - 1 implies !same_ids(#[trigger] e[k], e[k + 1]) by {
                if k < d.len() - 1 {
                    assert(e[k] == d[k] && e[k + 1] == d[k + 1]);
                }
            }
            if sorted_by_name(s) {
                assert(sorted_by_name(r));
                assert forall|a: int, b: int| 0 <= a < b < e.len() implies lex_le(#[trigger] e[a].name, #[trigger] e[b].name) by {
                    if b < d.len() {
                        assert(e[a] == d[a] && e[b] == d[b]);
                    } else {
                        let j = choose|j: int| 0 <= j < r.len() && r[j] == d[a];
                        assert(s[j] == d[a]);
                        assert(lex_le(s[j].name, s[s.len() - 1].name));
                    }
                }
            }
        }
    }
}

/// Every entry listed has a name.
proof fn lemma_listed_named(s: Seq<RawView>)
    ensures
        forall|k: int| 0 <= k < listed(s).len() ==> (#[trigger] listed(s)[k]).name.len() > 0,
    decreases s.len(),
{
    if s.len() > 0 {
        let r = s.drop_last();
        lemma_listed_named(r);
        let l = listed(s);
        assert forall|k: int| 0 <= k < l.len() implies (#[trigger] l[k]).name.len() > 0 by {
            if k < listed(r).len() {
                assert(l[k] == listed(r)[k]);
            }
        }
    }
}

/// The device picker's list is in order of name, every entry has a name, and
/// no entry has the same ids as the one before it.
pub proof fn lemma_device_list_shape(raw: Seq<RawView>, sorted: Seq<InfoView>)
    requires
        is_stable_sort_by_name(sorted, listed(raw)),
    ensures
        sorted_by_name(dedup_ids(sorted)),
        forall|k: int| 0 <= k < dedup_ids(sorted).len() ==> (#[trigger] dedup_ids(sorted)[k]).name.len() > 0,
        forall|k: int| 0 <= k < dedup_ids(sorted).len() - 1 ==> !same_ids(#[trigger] dedup_ids(sorted)[k], dedup_ids(sorted)[k + 1]),
{
    let perm = choose|perm: Seq<int>| stable_sort_witness(sorted, listed(raw), perm);
    lemma_dedup_ids(sorted);
    lemma_listed_named(raw);
    let d = dedup_ids(sorted);
    assert forall|k: int| 0 <= k < d.len() implies (#[trigger] d[k]).name.len() > 0 by {
        let j = choose|j: int| 0 <= j < sorted.len() && sorted[j] == d[k];
        assert(sorted[j] == listed(raw)[perm[j]]);
    }
}

/// Adding an entry at the end of a list drops it exactly when the last entry
/// kept so far has the same vendor id and the same product id; otherwise the
/// entry is kept after the others.
pub proof fn lemma_dedup_ids_push(s: Seq<InfoView>, x: InfoView)
    ensures
        dedup_ids(s.push(x)) == (if dedup_ids(s).len() > 0 && dedup_ids(s).last().vid == x.vid
            && dedup_ids(s).last().pid == x.pid {
            dedup_ids(s)
        } else {
            dedup_ids(s).push(x)
        }),
{
    assert(s.push(x).drop_last() =~= s);
    assert(s.push(x).last() == x);
}

/// Every entry's vendor and product ids are still found in the list after
/// `dedup_ids`.
pub proof fn lemma_dedup_ids_keeps_ids(s: Seq<InfoView>)
    ensures
        forall|k: int|
            #![trigger s[k]]
            0 <= k < s.len() ==> exists|j: int|
                0 <= j < dedup_ids(s).len() && (#[trigger] dedup_ids(s)[j]).vid == s[k].vid
                    && dedup_ids(s)[j].pid == s[k].pid,
    decreases s.len(),
{
    if s.len() > 0 {
        let r = s.drop_last();
        lemma_dedup_ids_keeps_ids(r);
        let d = dedup_ids(r);
        let e = dedup_ids(s);
        assert(e.len() >= d.len());
        assert forall|j: int| 0 <= j < d.len() implies e[j] == d[j] by {}
        assert forall|k: int| #![trigger s[k]] 0 <= k < s.len() implies exists|j: int|
            0 <= j < e.len() && (#[trigger] e[j]).vid == s[k].vid && e[j].pid == s[k].pid by {
            if k < r.len() {
                assert(s[k] == r[k]);
                let j = choose|j: int| 0 <= j < d.len() && (#[trigger] d[j]).vid == r[k].vid && d[j].pid == r[k].pid;
                assert(e[j] == d[j]);
            } else if d.len() > 0 && same_ids(d.last(), s.last()) {
                assert(e[d.len() - 1] == d.last());
            } else {
                assert(e[d.len() as int] == s.last());
            }
        }
    }
}

/// A sequence of `n` distinct positions below `n` holds every position below `n`.
proof fn lemma_perm_onto(perm: Seq<int>, n: int)
    requires
        perm.len() == n,
        perm.no_duplicates(),
        forall|k: int| 0 <= k < n ==> 0 <= #[trigger] perm[k] < n,
    ensures
        forall|m: int| 0 <= m < n ==> #[trigger] perm.contains(m),
{
    perm.unique_seq_to_set();
    lemma_int_range(0, n);
    let a = perm.to_set();
    let b = set_int_range(0, n);
    assert forall|m: int| a.contains(m) implies b.contains(m) by {
        let k = choose|k: int| 0 <= k < perm.len() && perm[k] == m;
    }
    lemma_len_subset(a, b);
    lemma_subset_equality(a, b);
    assert forall|m: int| 0 <= m < n implies #[trigger] perm.contains(m) by {
        assert(b.contains(m));
        assert(a.contains(m));
    }
}

/// Every listable device has its entry in `listed`.
proof fn lemma_listed_covers(s: Seq<RawView>)
    ensures
        forall|k: int|
            #![trigger s[k]]
            0 <= k < s.len() && listable(s[k]) ==> exists|j: int|
                0 <= j < listed(s).len() && #[trigger] listed(s)[j] == info_of(s[k]),
    decreases s.len(),
{
    if s.len() > 0 {
        let r = s.drop_last();
        lemma_listed_covers(r);
        let l = listed(s);
        let lr = listed(r);
        assert forall|j: int| 0 <= j < lr.len() implies l[j] == lr[j] by {}
        assert forall|k: int| #![trigger s[k]] 0 <= k < s.len() && listable(s[k]) implies exists|j: int|
            0 <= j < l.len() && #[trigger] l[j] == info_of(s[k]) by {
            if k < r.len() {
                assert(s[k] == r[k]);
                let j = choose|j: int| 0 <= j < lr.len() && #[trigger] lr[j] == info_of(r[k]);
                assert(l[j] == lr[j]);
            } else {
                assert(l[lr.len() as int] == info_of(s.last()));
            }
        }
    }
}

/// Every listable device's vendor and product ids are shown in the device
/// picker's list.
pub proof fn lemma_every_device_listed(raw: Seq<RawView>, sorted: Seq<InfoView>)
    requires
        is_stable_sort_by_name(sorted, listed(raw)),
    ensures
        forall|k: int|
            #![trigger raw[k]]
            0 <= k < raw.len() && listable(raw[k]) ==> exists|j: int|
                0 <= j < dedup_ids(sorted).len()
                    && (#[trigger] dedup_ids(sorted)[j]).vid == spec_format_device_id(raw[k].vid)
                    && dedup_ids(sorted)[j].pid == spec_format_device_id(raw[k].pid),
{
    let l = listed(raw);
    let perm = choose|perm: Seq<int>| stable_sort_witness(sorted, l, perm);
    lemma_perm_onto(perm, l.len() as int);
    lemma_listed_covers(raw);
    lemma_dedup_ids_keeps_ids(sorted);
    let d = dedup_ids(sorted);
    assert forall|k: int| #![trigger raw[k]] 0 <= k < raw.len() && listable(raw[k]) implies exists|j: int|
        0 <= j < d.len() && (#[trigger] d[j]).vid == spec_format_device_id(raw[k].vid)
            && d[j].pid == spec_format_device_id(raw[k].pid) by {
        let i = choose|i: int| 0 <= i < l.len() && #[trigger] l[i] == info_of(raw[k]);
        assert(perm.contains(i));
        let p = choose|p: int| 0 <= p < perm.len() && #[trigger] perm[p] == i;
        assert(sorted[p] == l[i]);
        let j = choose|j: int| 0 <= j < d.len() && (#[trigger] d[j]).vid == sorted[p].vid && d[j].pid == sorted[p].pid;
    }
}

} // verus!

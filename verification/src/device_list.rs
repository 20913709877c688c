//! Listing devices and settling on one.
use vstd::prelude::*;

use crate::device::{
    candidates, chosen, colon_at, fits, hits, law_picks_fit, picks, rank, rank_number, runtime_name, runtime_of,
    runtime_text, Api, Choice, DeviceInfo, DeviceSelector, SelectorError,
};
use crate::order::{key, keys, law_in_order_complete, law_order_exists, ordered, sorted, Key};
use crate::text::{
    all_digits, ascii_lower, ascii_lower_seq, chars_of, dec, is_digit, law_parse_reads_dec, lemma_dec_digits, lit,
    push_dec, push_dec64, unsigned_part,
};
use crate::unicode::{trimmed, white};

verus! {

/// Why no adapter was chosen.
#[derive(Clone, Copy, Debug, PartialEq, Eq, Structural)]
pub enum SelectError {
    /// The host is no adapter.
    HostBackend,
    NoAdapters,
    NoSuchDevice { index: usize, adapters: usize },
    NoMatch,
    NoSuchIndex { index: usize, devices: usize },
}

/// The adapter that a selector settles on.
pub open spec fn selection(infos: Seq<DeviceInfo>, c: Choice) -> Result<usize, SelectError> {
    match c {
        Choice::Cpu => Err(SelectError::HostBackend),
        _ => if infos.len() == 0 {
            Err(SelectError::NoAdapters)
        } else {
            match c {
                Choice::Index(i) => if i < infos.len() {
                    Ok(i as usize)
                } else {
                    Err(SelectError::NoSuchDevice { index: i as usize, adapters: infos.len() as usize })
                },
                _ => {
                    let p = picks(infos, c);
                    if p.len() == 0 {
                        Err(SelectError::NoMatch)
                    } else {
                        match c {
                            Choice::Runtime { index, .. } => if index < p.len() {
                                Ok(p[index])
                            } else {
                                Err(SelectError::NoSuchIndex { index: index as usize, devices: p.len() as usize })
                            },
                            _ => Ok(p[0]),
                        }
                    }
                },
            }
        },
    }
}

/// Settles on an adapter.
pub fn select(infos: &Vec<DeviceInfo>, sel: &DeviceSelector) -> (r: Result<usize, SelectError>)
    ensures
        r == selection(infos@, sel.choice()),
{
    let n: usize = infos.len();
    match sel {
        DeviceSelector::Cpu => {
            return Err(SelectError::HostBackend);
        },
        _ => {},
    }
    if n == 0 {
        return Err(SelectError::NoAdapters);
    }
    match sel {
        DeviceSelector::Index(i) => if *i < n {
            Ok(*i)
        } else {
            Err(SelectError::NoSuchDevice { index: *i, adapters: n })
        },
        _ => {
            let p = candidates(infos, sel);
            if p.len() == 0 {
                return Err(SelectError::NoMatch);
            }
            match sel {
                DeviceSelector::Runtime { index, .. } => if *index < p.len() {
                    Ok(p[*index])
                } else {
                    Err(SelectError::NoSuchIndex { index: *index, devices: p.len() })
                },
                _ => Ok(p[0]),
            }
        },
    }
}

impl DeviceInfo {
    /// Two descriptions say the same.
    pub open spec fn same(self, o: DeviceInfo) -> bool {
        &&& self.name@ == o.name@
        &&& self.backend == o.backend
        &&& self.device_type == o.device_type
        &&& self.driver@ == o.driver@
        &&& self.driver_info@ == o.driver_info@
        &&& self.max_binding_bytes == o.max_binding_bytes
        &&& self.max_workgroup_storage == o.max_workgroup_storage
        &&& self.subgroup == o.subgroup
        &&& self.subgroup_min == o.subgroup_min
        &&& self.subgroup_max == o.subgroup_max
        &&& self.timestamps == o.timestamps
        &&& self.vendor_id == o.vendor_id
        &&& self.device_id == o.device_id
    }

    /// A copy.
    pub fn copy(&self) -> (r: DeviceInfo)
        ensures
            r.same(*self),
    {
        DeviceInfo {
            name: lit(self.name.as_str()),
            backend: self.backend,
            device_type: self.device_type,
            driver: lit(self.driver.as_str()),
            driver_info: lit(self.driver_info.as_str()),
            max_binding_bytes: self.max_binding_bytes,
            max_workgroup_storage: self.max_workgroup_storage,
            subgroup: self.subgroup,
            subgroup_min: self.subgroup_min,
            subgroup_max: self.subgroup_max,
            timestamps: self.timestamps,
            vendor_id: self.vendor_id,
            device_id: self.device_id,
        }
    }

    /// The subgroup widths: one number, or a range.
    pub open spec fn widths(self) -> Seq<char> {
        if self.subgroup_min == self.subgroup_max {
            dec(self.subgroup_min as nat)
        } else {
            dec(self.subgroup_min as nat) + ".."@ + dec(self.subgroup_max as nat)
        }
    }

    fn push_widths(&self, s: &mut String)
        ensures
            final(s)@ == old(s)@ + self.widths(),
    {
        let ghost start = s@;
        push_dec(s, self.subgroup_min as usize);
        if self.subgroup_min != self.subgroup_max {
            s.append("..");
            push_dec(s, self.subgroup_max as usize);
        }
        assert(s@ =~= start + self.widths());
    }

    /// What the adapter is, who made it and what drives it.
    pub open spec fn headline(self) -> Seq<char> {
        self.name@ + " ("@ + self.backend.name_spec() + ", "@ + self.device_type.name_spec() + ") | "@ + self.driver@
            + " "@ + self.driver_info@ + " | wg workgroup storage "@ + dec(self.max_workgroup_storage as nat)
    }

    fn start_line(&self) -> (s: String)
        ensures
            s@ == self.headline(),
    {
        let mut s = lit(self.name.as_str());
        s.append(" (");
        s.append(self.backend.name());
        s.append(", ");
        s.append(self.device_type.name());
        s.append(") | ");
        s.append(self.driver.as_str());
        s.append(" ");
        s.append(self.driver_info.as_str());
        s.append(" | wg workgroup storage ");
        push_dec(&mut s, self.max_workgroup_storage as usize);
        s
    }

    /// The adapter on one line.
    pub fn describe(&self) -> (r: String)
        ensures
            r@ == self.headline() + " B, binding "@ + dec((self.max_binding_bytes / 1048576) as nat)
                + " MiB, subgroup "@ + if !self.subgroup {
                "none"@
            } else {
                self.widths()
            },
    {
        let mut s = self.start_line();
        s.append(" B, binding ");
        push_dec64(&mut s, self.max_binding_bytes / 1048576);
        s.append(" MiB, subgroup ");
        if !self.subgroup {
            s.append("none");
        } else {
            self.push_widths(&mut s);
        }
        s
    }

    /// The device on one line, as logs and reports have it.
    pub fn describe_device(&self) -> (r: String)
        ensures
            r@ == self.headline() + " B, maxStorageBufferBindingSize "@ + dec(
                (self.max_binding_bytes / 1048576) as nat,
            ) + " MiB"@,
    {
        let mut s = self.start_line();
        s.append(" B, maxStorageBufferBindingSize ");
        push_dec64(&mut s, self.max_binding_bytes / 1048576);
        s.append(" MiB");
        s
    }
}

/// The vendor that a PCI id names.
pub open spec fn vendor_spec(id: u32) -> Seq<char> {
    if id == 0x10DE {
        "NVIDIA"@
    } else if id == 0x1002 || id == 0x1022 {
        "AMD"@
    } else if id == 0x8086 {
        "Intel"@
    } else if id == 0x106B {
        "Apple"@
    } else if id == 0x1414 {
        "Microsoft"@
    } else {
        "other"@
    }
}

/// The vendor that a PCI id names.
pub fn vendor_label(id: u32) -> (r: &'static str)
    ensures
        r@ == vendor_spec(id),
{
    if id == 0x10DE {
        "NVIDIA"
    } else if id == 0x1002 || id == 0x1022 {
        "AMD"
    } else if id == 0x8086 {
        "Intel"
    } else if id == 0x106B {
        "Apple"
    } else if id == 0x1414 {
        "Microsoft"
    } else {
        "other"
    }
}

/// One selectable device.
#[derive(Clone, Debug)]
pub struct DeviceTarget {
    /// `<runtime>:<index>`, as [`DeviceSelector::parse`] reads it.
    pub spec: String,
    /// The adapter's number.
    pub adapter: usize,
    pub info: DeviceInfo,
    /// The default policy picks this device.
    pub is_default: bool,
}

/// `s` with blanks behind it up to `n` characters.
pub open spec fn padded(s: Seq<char>, n: nat) -> Seq<char> {
    if s.len() < n {
        s + Seq::new((n - s.len()) as nat, |i: int| ' ')
    } else {
        s
    }
}

fn push_padded(out: &mut String, s: &str, n: usize)
    ensures
        final(out)@ == old(out)@ + padded(s@, n as nat),
{
    let ghost start = out@;
    let len: usize = chars_of(s).len();
    out.append(s);
    if len < n {
        for i in 0..n - len
            invariant
                len == s@.len(),
                len < n,
                out@ == start + s@ + Seq::new(i as nat, |i: int| ' '),
        {
            out.push(' ');
            assert(out@ =~= start + s@ + Seq::new((i + 1) as nat, |i: int| ' '));
        }
    }
    assert(out@ =~= start + padded(s@, n as nat));
}

impl DeviceTarget {
    /// The device on one line of a listing, the default one marked with a star.
    /// The specification and the blank behind it take ten columns, or more where
    /// they do not fit:
    /// `vulkan:0  NVIDIA P104-100 (NVIDIA, dGPU, driver 572.75) binding 2047 MiB, subgroup 32`.
    pub fn describe(&self) -> (r: String)
        ensures
            r@ == (if self.is_default {
                "* "@
            } else {
                ""@
            }) + padded(self.spec@ + " "@, 10) + self.info.name@ + " ("@ + vendor_spec(self.info.vendor_id) + ", "@
                + self.info.device_type.short_spec() + ", driver "@ + self.info.driver@ + ") binding "@ + dec(
                (self.info.max_binding_bytes / 1048576) as nat,
            ) + " MiB, "@ + if !self.info.subgroup {
                "no subgroup"@
            } else {
                "subgroup "@ + self.info.widths()
            },
    {
        let mut s = if self.is_default {
            lit("* ")
        } else {
            lit("")
        };
        let mut column = lit(self.spec.as_str());
        column.append(" ");
        push_padded(&mut s, column.as_str(), 10);
        s.append(self.info.name.as_str());
        s.append(" (");
        s.append(vendor_label(self.info.vendor_id));
        s.append(", ");
        s.append(self.info.device_type.short());
        s.append(", driver ");
        s.append(self.info.driver.as_str());
        s.append(") binding ");
        push_dec64(&mut s, self.info.max_binding_bytes / 1048576);
        s.append(" MiB, ");
        if !self.info.subgroup {
            s.append("no subgroup");
        } else {
            let mut t = lit("subgroup ");
            self.info.push_widths(&mut t);
            s.append(t.as_str());
        }
        s
    }
}

/// The adapters of one runtime, best first.
pub open spec fn runtime_picks(infos: Seq<DeviceInfo>, api: Api) -> Seq<usize> {
    picks(infos, Choice::Runtime { api, index: 0 })
}

/// Which device of its runtime an adapter is.
pub open spec fn runtime_index(infos: Seq<DeviceInfo>, a: usize) -> int {
    runtime_picks(infos, infos[a as int].backend).index_of(a)
}

/// The keys of the listing: rank, then name.
pub open spec fn list_keys(infos: Seq<DeviceInfo>) -> Seq<(int, Seq<char>)> {
    infos.map_values(|i: DeviceInfo| (rank_number(i), i.name@))
}

/// The specification of an adapter.
pub open spec fn target_spec(infos: Seq<DeviceInfo>, a: usize) -> Seq<char> {
    runtime_text(infos[a as int].backend) + ":"@ + dec(runtime_index(infos, a) as nat)
}

/// The target of an adapter.
pub open spec fn target_of(infos: Seq<DeviceInfo>, a: usize, t: DeviceTarget) -> bool {
    &&& t.adapter == a
    &&& t.spec@ == target_spec(infos, a)
    &&& t.info.same(infos[a as int])
    &&& t.is_default == (picks(infos, Choice::Auto)[0] == a)
}

fn index_in(p: &Vec<usize>, a: usize) -> (r: usize)
    requires
        p@.contains(a),
        p@.no_duplicates(),
    ensures
        r == p@.index_of(a),
{
    let ghost at = p@.index_of(a);
    let mut i: usize = 0;
    while i < p.len()
        invariant
            p@.contains(a),
            p@.no_duplicates(),
            at == p@.index_of(a),
            0 <= at < p@.len(),
            p@[at] == a,
            i <= at,
        decreases p@.len() - i,
    {
        if p[i] == a {
            return i;
        }
        i = i + 1;
    }
    i
}

proof fn lemma_picks_distinct(infos: Seq<DeviceInfo>, c: Choice)
    requires
        infos.len() <= usize::MAX,
    ensures
        picks(infos, c).no_duplicates(),
        picks(infos, c).len() == hits(infos, c, infos.len()).len(),
{
    let h = hits(infos, c, infos.len());
    let k = crate::device::rank_keys(infos, h);
    crate::device::lemma_hits(infos, c, infos.len());
    crate::device::lemma_hits_ascend(infos, c, infos.len());
    law_order_exists(k);
    law_in_order_complete(k, ordered(k));
    let q = ordered(k);
    assert forall|i: int, j: int| 0 <= i < q.len() && 0 <= j < q.len() && i != j implies picks(infos, c)[i] != picks(
        infos,
        c,
    )[j] by {
        assert(q[i] < k.len() && q[j] < k.len());
        assert(q[i] != q[j]);
        if q[i] < q[j] {
            assert(h[q[i] as int] < h[q[j] as int]);
        } else {
            assert(h[q[j] as int] < h[q[i] as int]);
        }
    }
}

/// Every adapter as a target, by rank and name, under the specification that
/// chooses it, the default one marked.
pub fn list_targets(infos: &Vec<DeviceInfo>) -> (r: Vec<DeviceTarget>)
    ensures
        r@.len() == infos@.len(),
        forall|p: int|
            0 <= p < r@.len() ==> target_of(infos@, ordered(list_keys(infos@))[p], #[trigger] r@[p]),
{
    let n: usize = infos.len();
    let mut k: Vec<Key> = Vec::new();
    for i in 0..n
        invariant
            n == infos@.len(),
            keys(k@) == list_keys(infos@).take(i as int),
    {
        let (class, api) = rank(&infos[i]);
        let ghost before = k@;
        let one = Key { rank: class as u64 * 8 + api as u64, name: chars_of(infos[i].name.as_str()) };
        k.push(one);
        proof {
            assert(keys(k@) =~= keys(before).push(key(one)));
            assert(list_keys(infos@).take(i + 1) =~= list_keys(infos@).take(i as int).push(
                list_keys(infos@)[i as int],
            ));
        }
    }
    assert(list_keys(infos@).take(n as int) =~= list_keys(infos@));
    let o = sorted(&k);
    let best = candidates(infos, &DeviceSelector::Auto);
    let mut r: Vec<DeviceTarget> = Vec::new();
    for i in 0..n
        invariant
            n == infos@.len(),
            o@ == ordered(list_keys(infos@)),
            o@.len() == n,
            forall|p: int| 0 <= p < o@.len() ==> #[trigger] o@[p] < n,
            best@ == picks(infos@, Choice::Auto),
            r@.len() == i,
            forall|p: int| 0 <= p < r@.len() ==> target_of(infos@, ordered(list_keys(infos@))[p], #[trigger] r@[p]),
    {
        let a: usize = o[i];
        let api = infos[a].backend;
        proof {
            law_picks_fit(infos@, Choice::Auto, a);
            law_picks_fit(infos@, Choice::Runtime { api, index: 0 }, a);
            lemma_picks_distinct(infos@, Choice::Runtime { api, index: 0 });
        }
        let mine = candidates(infos, &DeviceSelector::Runtime { api, index: 0 });
        let index: usize = index_in(&mine, a);
        let mut spec = lit(runtime_name(api));
        spec.append(":");
        push_dec(&mut spec, index);
        r.push(DeviceTarget { spec, adapter: a, info: infos[a].copy(), is_default: best[0] == a });
    }
    r
}

/// The number, name and interface of adapter `i`.
pub open spec fn adapter_line(infos: Seq<DeviceInfo>, i: int) -> Seq<char> {
    "#"@ + dec(i as nat) + " "@ + infos[i].name@ + " ("@ + infos[i].backend.name_spec() + ", "@
        + infos[i].device_type.name_spec() + ")"@
}

/// The first `n` adapters, separated by commas.
pub open spec fn adapter_names(infos: Seq<DeviceInfo>, n: nat) -> Seq<char>
    decreases n,
{
    if n == 0 {
        Seq::empty()
    } else if n == 1 {
        adapter_line(infos, 0)
    } else {
        adapter_names(infos, (n - 1) as nat) + ", "@ + adapter_line(infos, n - 1)
    }
}

/// The adapters, for an error message.
pub fn list_names(infos: &Vec<DeviceInfo>) -> (r: String)
    ensures
        r@ == adapter_names(infos@, infos@.len()),
{
    let mut s = String::new();
    for i in 0..infos.len()
        invariant
            s@ == adapter_names(infos@, i as nat),
    {
        let mut t = lit("#");
        push_dec(&mut t, i);
        t.append(" ");
        t.append(infos[i].name.as_str());
        t.append(" (");
        t.append(infos[i].backend.name());
        t.append(", ");
        t.append(infos[i].device_type.name());
        t.append(")");
        if i > 0 {
            s.append(", ");
        }
        let ghost before = s@;
        s.append(t.as_str());
        proof {
            if i == 0 {
                assert(s@ =~= t@);
            }
        }
    }
    s
}

/// Text that neither begins nor ends in white space.
proof fn lemma_trimmed(s: Seq<char>)
    requires
        s.len() > 0,
        !white(s[0]),
        !white(s.last()),
    ensures
        trimmed(s) == s,
{
}

proof fn lemma_colon(s: Seq<char>, i: int, c: int)
    requires
        0 <= i <= c < s.len(),
        s[c] == ':',
        forall|k: int| 0 <= k < c ==> s[k] != ':',
    ensures
        colon_at(s, i) == Some(c),
    decreases c - i,
{
    if i < c {
        lemma_colon(s, i + 1, c);
    }
}

/// A runtime's name is small letters and digits and begins with a letter.
proof fn lemma_runtime_text(api: Api)
    requires
        !(api is Noop),
    ensures
        ({
            let n = runtime_text(api);
            &&& 2 <= n.len() <= 6
            &&& n.len() != 3 && (n.len() == 4 ==> n[0] == 'd')
            &&& 'a' <= n[0] && n[0] <= 'z'
            &&& forall|k: int| 0 <= k < n.len() ==> #[trigger] n[k] != ':' && ascii_lower(n[k]) == n[k]
            &&& runtime_of(n) == Some(api)
        }),
{
    reveal_strlit("vulkan");
    reveal_strlit("metal");
    reveal_strlit("dx12");
    reveal_strlit("d3d12");
    reveal_strlit("gl");
    reveal_strlit("webgpu");
    assert("vulkan"@[0] == 'v' && "metal"@[0] == 'm' && "dx12"@[0] == 'd' && "d3d12"@[0] == 'd' && "gl"@[0] == 'g'
        && "webgpu"@[0] == 'w');
    assert("dx12"@.len() == 4 && "d3d12"@.len() == 5);
    let n = runtime_text(api);
    assert(ascii_lower_seq(n) =~= n);
}

/// The specification of a listed device chooses it: reading `<runtime>:<index>`
/// and settling on an adapter gives the adapter that is listed so.
pub proof fn law_target_spec_chooses(infos: Seq<DeviceInfo>, a: usize)
    requires
        a < infos.len() <= usize::MAX,
        !(infos[a as int].backend is Noop),
    ensures
        chosen(trimmed(target_spec(infos, a))) == Ok::<Choice, SelectorError>(
            Choice::Runtime { api: infos[a as int].backend, index: runtime_index(infos, a) },
        ),
        selection(infos, Choice::Runtime { api: infos[a as int].backend, index: runtime_index(infos, a) }) == Ok::<
            usize,
            SelectError,
        >(a),
{
    let api = infos[a as int].backend;
    let n = runtime_text(api);
    let c0 = Choice::Runtime { api, index: 0 };
    law_picks_fit(infos, c0, a);
    lemma_picks_distinct(infos, c0);
    let p = runtime_picks(infos, api);
    let i = runtime_index(infos, a);
    assert(0 <= i < p.len() && p[i] == a);
    crate::device::lemma_hits(infos, c0, infos.len());
    let c = Choice::Runtime { api, index: i };
    lemma_same_hits(infos, c0, c, infos.len());
    assert(picks(infos, c) == p);
    let d = dec(i as nat);
    let s = target_spec(infos, a);
    reveal_strlit(":");
    lemma_runtime_text(api);
    lemma_dec_digits(i as nat);
    law_parse_reads_dec(i as nat, usize::MAX as nat);
    let l = n.len() as int;
    assert(s.take(l) =~= n);
    assert(s.skip(l + 1) =~= d);
    assert(s[0] == n[0]);
    assert(s[l] == ':');
    assert(s.last() == d.last());
    assert(is_digit(d[d.len() - 1]));
    assert(is_digit(d[0]));
    lemma_trimmed(s);
    lemma_trimmed(d);
    assert forall|k: int| 0 <= k < l implies s[k] != ':' by {
        assert(s[k] == n[k]);
    }
    lemma_colon(s, 0, l);
    assert(!is_digit(s[0]));
    assert(unsigned_part(s) == s);
    assert(!all_digits(s));
    let low = ascii_lower_seq(s);
    assert(low.len() == s.len() && low[l] == ':' && low[0] == n[0]);
    reveal_strlit("auto");
    reveal_strlit("cpu");
    let au = ascii_lower_seq("auto"@);
    let cp = ascii_lower_seq("cpu"@);
    assert(au.len() == 4 && au[0] == 'a' && au[2] == 't' && au[3] == 'o');
    assert(cp.len() == 3);
}

proof fn lemma_same_hits(infos: Seq<DeviceInfo>, a: Choice, b: Choice, n: nat)
    requires
        n <= infos.len(),
        forall|i: DeviceInfo| fits(a, i) == fits(b, i),
    ensures
        hits(infos, a, n) == hits(infos, b, n),
    decreases n,
{
    if n > 0 {
        lemma_same_hits(infos, a, b, (n - 1) as nat);
        assert(fits(a, infos[n - 1]) == fits(b, infos[n - 1]));
    }
}

/// The target that is marked as the default is the one that the default policy
/// settles on.
pub proof fn law_default_is_auto(infos: Seq<DeviceInfo>, t: DeviceTarget, a: usize)
    requires
        a < infos.len() <= usize::MAX,
        target_of(infos, a, t),
    ensures
        t.is_default <==> selection(infos, Choice::Auto) == Ok::<usize, SelectError>(a),
{
    law_picks_fit(infos, Choice::Auto, a);
}

/// `again` holds the adapters of `infos` in another order: adapter `j` of it is
/// adapter `p[j]` of `infos`, and none is left out.
pub open spec fn reordered(infos: Seq<DeviceInfo>, again: Seq<DeviceInfo>, p: Seq<usize>) -> bool {
    &&& again.len() == infos.len()
    &&& p.len() == infos.len()
    &&& forall|j: int| 0 <= j < p.len() ==> #[trigger] p[j] < infos.len() && again[j].same(infos[p[j] as int])
    &&& forall|i: usize| i < infos.len() ==> #[trigger] p.contains(i)
}

/// No two adapters tie for the best rank: of two that tie, a third ranks better.
pub open spec fn clear_best(infos: Seq<DeviceInfo>) -> bool {
    forall|i: int, j: int|
        0 <= i < j < infos.len() && rank_number(infos[i]) == rank_number(infos[j]) ==> exists|k: int|
            0 <= k < infos.len() && #[trigger] rank_number(infos[k]) < rank_number(infos[i])
}

/// The first pick of the default policy ranks best.
proof fn lemma_first_pick(infos: Seq<DeviceInfo>)
    requires
        0 < infos.len() <= usize::MAX,
    ensures
        picks(infos, Choice::Auto).len() > 0,
        picks(infos, Choice::Auto)[0] < infos.len(),
        forall|i: int|
            0 <= i < infos.len() ==> rank_number(infos[picks(infos, Choice::Auto)[0] as int]) <= #[trigger] rank_number(
                infos[i],
            ),
{
    let c = Choice::Auto;
    let h = hits(infos, c, infos.len());
    let k = crate::device::rank_keys(infos, h);
    let q = ordered(k);
    let p = picks(infos, c);
    crate::device::lemma_hits(infos, c, infos.len());
    law_order_exists(k);
    law_picks_fit(infos, c, 0);
    assert forall|i: int| 0 <= i < infos.len() implies rank_number(infos[p[0] as int]) <= #[trigger] rank_number(
        infos[i],
    ) by {
        law_picks_fit(infos, c, i as usize);
        let at = choose|at: int| 0 <= at < p.len() && p[at] == i as usize;
        if at > 0 {
            let (a, b) = (q[0] as int, q[at] as int);
            assert(crate::order::stands_before(k, a, b));
            assert(k[a].1 =~= Seq::<char>::empty() && k[b].1 =~= Seq::<char>::empty());
        }
    }
    law_picks_fit(infos, c, p[0]);
}

/// The default that is marked in a listing is what the default policy settles on
/// when the same adapters are enumerated again in any order, as long as no two of
/// them tie for the best rank.
pub proof fn law_default_any_order(
    infos: Seq<DeviceInfo>,
    again: Seq<DeviceInfo>,
    p: Seq<usize>,
    t: DeviceTarget,
    a: usize,
)
    requires
        a < infos.len() <= usize::MAX,
        target_of(infos, a, t),
        reordered(infos, again, p),
        clear_best(infos),
    ensures
        selection(again, Choice::Auto) is Ok,
        t.is_default <==> p[selection(again, Choice::Auto)->Ok_0 as int] == a,
{
    lemma_first_pick(infos);
    lemma_first_pick(again);
    let x = picks(infos, Choice::Auto)[0];
    let y = picks(again, Choice::Auto)[0];
    let z = p[y as int];
    assert(p.contains(x));
    let j = choose|j: int| 0 <= j < p.len() && p[j] == x;
    assert(rank_number(again[y as int]) == rank_number(infos[z as int]));
    assert(rank_number(again[j]) == rank_number(infos[x as int]));
    assert(rank_number(infos[z as int]) == rank_number(infos[x as int]));
    if z != x {
        let (i, k) = if z < x {
            (z as int, x as int)
        } else {
            (x as int, z as int)
        };
        assert(rank_number(infos[i]) == rank_number(infos[k]));
    }
}

/// Exactly one target of a listing is marked as the default.
pub proof fn law_one_default(infos: Seq<DeviceInfo>, ts: Seq<DeviceTarget>)
    requires
        0 < infos.len() <= usize::MAX,
        ts.len() == infos.len(),
        forall|i: int| 0 <= i < ts.len() ==> target_of(infos, ordered(list_keys(infos))[i], #[trigger] ts[i]),
    ensures
        exists|i: int|
            0 <= i < ts.len() && (#[trigger] ts[i]).is_default && forall|j: int|
                0 <= j < ts.len() && (#[trigger] ts[j]).is_default ==> j == i,
{
    let k = list_keys(infos);
    let o = ordered(k);
    law_order_exists(k);
    law_in_order_complete(k, o);
    lemma_first_pick(infos);
    let x = picks(infos, Choice::Auto)[0];
    assert(o.contains(x));
    let i = choose|i: int| 0 <= i < o.len() && o[i] == x;
    assert(ts[i].is_default);
    assert forall|j: int| 0 <= j < ts.len() && (#[trigger] ts[j]).is_default implies j == i by {
        assert(o[j] == x);
        if j < i {
            assert(crate::order::stands_before(k, o[j] as int, o[i] as int));
        } else if i < j {
            assert(crate::order::stands_before(k, o[i] as int, o[j] as int));
        }
        crate::order::lemma_text_total(k[x as int].1, k[x as int].1);
    }
}

/// A bound buffer's size: whole 16-byte units, one at least.
pub open spec fn padded_size(bytes: int) -> int {
    if bytes <= 16 {
        16
    } else {
        (bytes + 15) / 16 * 16
    }
}

/// The size of a storage or uniform buffer of `bytes`.
pub fn buffer_size(bytes: u64) -> (r: u64)
    requires
        bytes <= u64::MAX - 15,
    ensures
        r == padded_size(bytes as int),
{
    let up: u64 = (bytes + 15) / 16 * 16;
    if up < 16 {
        16
    } else {
        up
    }
}

/// The size of the buffer that `bytes` are read back through: whole 32-bit
/// words, one at least.
pub fn readback_size(bytes: u64) -> (r: u64)
    requires
        bytes <= u64::MAX - 3,
    ensures
        r == if bytes <= 4 {
            4int
        } else {
            (bytes + 3) / 4 * 4
        },
{
    let up: u64 = (bytes + 3) / 4 * 4;
    if up < 4 {
        4
    } else {
        up
    }
}

/// A padded buffer holds what was asked for and wastes less than a unit.
pub proof fn law_padded_size(bytes: int)
    requires
        bytes >= 0,
    ensures
        padded_size(bytes) % 16 == 0,
        padded_size(bytes) >= 16,
        bytes <= padded_size(bytes),
        bytes >= 1 ==> padded_size(bytes) < bytes + 16,
{
}

/// Bytes that may be staged before the queue is drained.
pub const STAGING_BUDGET: u64 = 268435456;

/// One command of an upload.
#[derive(Clone, Copy, Debug, PartialEq, Eq, Structural)]
pub enum UploadStep {
    /// Drains the queue, so that nothing is staged.
    Flush,
    /// Stages `len` bytes of the data from `offset` on, to the same offset of
    /// the buffer.
    Write { offset: usize, len: usize },
}

/// An upload session: the bytes that are staged.
#[derive(Clone, Copy, Debug, PartialEq, Eq, Structural)]
pub struct BulkUpload {
    pub pending: u64,
}

/// The bytes staged behind the first `n` commands.
pub open spec fn staged(pending: int, s: Seq<UploadStep>, n: nat) -> int
    decreases n,
{
    if n == 0 {
        pending
    } else {
        match s[n - 1] {
            UploadStep::Flush => 0,
            UploadStep::Write { len, .. } => staged(pending, s, (n - 1) as nat) + len,
        }
    }
}

/// The commands that stage `len` bytes from `offset` on, `pending` being staged:
/// pieces no larger than the budget, each behind a flush where it would not fit
/// beside what is staged.
pub open spec fn upload_steps(pending: int, offset: int, len: int) -> Seq<UploadStep>
    decreases len - offset,
{
    if offset < 0 || offset >= len {
        Seq::empty()
    } else {
        let n = if len - offset < STAGING_BUDGET {
            len - offset
        } else {
            STAGING_BUDGET as int
        };
        let w = UploadStep::Write { offset: offset as usize, len: n as usize };
        if pending + n > STAGING_BUDGET {
            seq![UploadStep::Flush, w] + upload_steps(n, offset + n, len)
        } else {
            seq![w] + upload_steps(pending + n, offset + n, len)
        }
    }
}

/// The bytes staged behind those commands.
pub open spec fn pending_after(pending: int, offset: int, len: int) -> int
    decreases len - offset,
{
    if offset < 0 || offset >= len {
        pending
    } else {
        let n = if len - offset < STAGING_BUDGET {
            len - offset
        } else {
            STAGING_BUDGET as int
        };
        if pending + n > STAGING_BUDGET {
            pending_after(n, offset + n, len)
        } else {
            pending_after(pending + n, offset + n, len)
        }
    }
}

impl BulkUpload {
    /// No more is staged than the budget allows.
    pub open spec fn wf(self) -> bool {
        self.pending <= STAGING_BUDGET
    }

    /// A new session.
    pub fn new() -> (r: BulkUpload)
        ensures
            r.wf(),
            r.pending == 0,
    {
        BulkUpload { pending: 0 }
    }

    /// The commands that stage `len` bytes.
    pub fn upload(&mut self, len: usize) -> (r: Vec<UploadStep>)
        requires
            old(self).wf(),
        ensures
            final(self).wf(),
            r@ == upload_steps(old(self).pending as int, 0, len as int),
            final(self).pending == pending_after(old(self).pending as int, 0, len as int),
    {
        let mut r: Vec<UploadStep> = Vec::new();
        let mut off: usize = 0;
        let ghost p0 = self.pending as int;
        assert(r@ + upload_steps(p0, 0, len as int) =~= upload_steps(p0, 0, len as int));
        while off < len
            invariant
                self.pending <= STAGING_BUDGET,
                off <= len,
                r@ + upload_steps(self.pending as int, off as int, len as int) == upload_steps(p0, 0, len as int),
                pending_after(self.pending as int, off as int, len as int) == pending_after(p0, 0, len as int),
            decreases len - off,
        {
            let left: usize = len - off;
            let n: usize = if (left as u64) < STAGING_BUDGET {
                left
            } else {
                STAGING_BUDGET as usize
            };
            let ghost before = r@;
            let ghost rest = upload_steps(self.pending as int, off as int, len as int);
            if self.pending + n as u64 > STAGING_BUDGET {
                r.push(UploadStep::Flush);
                self.pending = 0;
            }
            r.push(UploadStep::Write { offset: off, len: n });
            self.pending = self.pending + n as u64;
            off = off + n;
            assert(r@ + upload_steps(self.pending as int, off as int, len as int) =~= before + rest);
        }
        assert(upload_steps(self.pending as int, off as int, len as int) =~= Seq::empty());
        assert(r@ + Seq::<UploadStep>::empty() =~= r@);
        r
    }

    /// Whether the queue has to be drained before the first dispatch.
    pub fn finish(&self) -> (r: bool)
        ensures
            r == (self.pending > 0),
    {
        self.pending > 0
    }
}

/// At no point of an upload is more staged than the budget allows.
pub proof fn law_staging_bounded(pending: int, offset: int, len: int, k: nat)
    requires
        0 <= pending <= STAGING_BUDGET,
        0 <= offset,
        len <= usize::MAX,
        k <= upload_steps(pending, offset, len).len(),
    ensures
        0 <= staged(pending, upload_steps(pending, offset, len), k) <= STAGING_BUDGET,
    decreases len - offset,
{
    let s = upload_steps(pending, offset, len);
    if offset < len && k > 0 {
        let n = if len - offset < STAGING_BUDGET {
            len - offset
        } else {
            STAGING_BUDGET as int
        };
        let head: nat = if pending + n > STAGING_BUDGET {
            2
        } else {
            1
        };
        let p = if pending + n > STAGING_BUDGET {
            n
        } else {
            pending + n
        };
        let t = upload_steps(p, offset + n, len);
        assert(staged(pending, s, 0) == pending);
        if head == 2 {
            assert(s[0] == UploadStep::Flush);
            assert(staged(pending, s, 1) == 0);
            assert(staged(pending, s, 2) == n);
        } else {
            assert(staged(pending, s, 1) == pending + n);
        }
        if k > head {
            law_staging_bounded(p, offset + n, len, (k - head) as nat);
            lemma_staged_shift(pending, p, s, t, head, (k - head) as nat);
        }
    }
}

proof fn lemma_staged_shift(a: int, b: int, s: Seq<UploadStep>, t: Seq<UploadStep>, head: nat, k: nat)
    requires
        staged(a, s, head) == b,
        k <= t.len(),
        s.len() == head + t.len(),
        forall|i: int| 0 <= i < t.len() ==> s[head + i] == #[trigger] t[i],
    ensures
        staged(a, s, head + k) == staged(b, t, k),
    decreases k,
{
    if k > 0 {
        lemma_staged_shift(a, b, s, t, head, (k - 1) as nat);
        assert(s[head + (k - 1)] == t[k - 1]);
    }
}

/// Every byte of an upload is staged.
pub proof fn law_upload_covers(pending: int, offset: int, len: int, at: int)
    requires
        0 <= offset <= at < len <= usize::MAX,
    ensures
        exists|i: int|
            0 <= i < upload_steps(pending, offset, len).len() && holds_byte(#[trigger] upload_steps(
                pending,
                offset,
                len,
            )[i], at),
    decreases len - offset,
{
    let s = upload_steps(pending, offset, len);
    let n = if len - offset < STAGING_BUDGET {
        len - offset
    } else {
        STAGING_BUDGET as int
    };
    let head = if pending + n > STAGING_BUDGET {
        1int
    } else {
        0int
    };
    if at < offset + n {
        assert(holds_byte(s[head], at));
    } else {
        let p = if pending + n > STAGING_BUDGET {
            n
        } else {
            pending + n
        };
        law_upload_covers(p, offset + n, len, at);
        let t = upload_steps(p, offset + n, len);
        let i = choose|i: int| 0 <= i < t.len() && holds_byte(#[trigger] t[i], at);
        assert(s[head + 1 + i] == t[i]);
    }
}

/// A command stages byte `at`.
pub open spec fn holds_byte(s: UploadStep, at: int) -> bool {
    match s {
        UploadStep::Write { offset, len } => offset <= at < offset + len,
        UploadStep::Flush => false,
    }
}

} // verus!

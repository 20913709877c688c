//! Devices: how one is named, listed and chosen.
use vstd::prelude::*;

use crate::order::{keys, law_in_order_complete, law_order_exists, ordered, sorted, Key};
use crate::text::{
    chars_eq, chars_of, eq_ignore_ascii_case, lower_chars, parse_usize, parse_value, str_eq, string_of, ascii_lower_seq,
};
use crate::unicode::{lowercase_text, lowercased, trim, trimmed, white};

verus! {

/// A graphics interface that compute runs through.
#[derive(Clone, Copy, Debug, PartialEq, Eq, Structural)]
pub enum Api {
    Noop,
    Vulkan,
    Metal,
    Dx12,
    Gl,
    BrowserWebGpu,
}

/// What an adapter is.
#[derive(Clone, Copy, Debug, PartialEq, Eq, Structural)]
pub enum DeviceType {
    Other,
    IntegratedGpu,
    DiscreteGpu,
    VirtualGpu,
    Cpu,
}

impl Api {
    /// The variant's name.
    pub open spec fn name_spec(self) -> Seq<char> {
        match self {
            Api::Noop => "Noop"@,
            Api::Vulkan => "Vulkan"@,
            Api::Metal => "Metal"@,
            Api::Dx12 => "Dx12"@,
            Api::Gl => "Gl"@,
            Api::BrowserWebGpu => "BrowserWebGpu"@,
        }
    }

    /// The variant's name.
    pub fn name(&self) -> (r: &'static str)
        ensures
            r@ == self.name_spec(),
    {
        match *self {
            Api::Noop => "Noop",
            Api::Vulkan => "Vulkan",
            Api::Metal => "Metal",
            Api::Dx12 => "Dx12",
            Api::Gl => "Gl",
            Api::BrowserWebGpu => "BrowserWebGpu",
        }
    }
}

impl DeviceType {
    /// The variant's name.
    pub open spec fn name_spec(self) -> Seq<char> {
        match self {
            DeviceType::Other => "Other"@,
            DeviceType::IntegratedGpu => "IntegratedGpu"@,
            DeviceType::DiscreteGpu => "DiscreteGpu"@,
            DeviceType::VirtualGpu => "VirtualGpu"@,
            DeviceType::Cpu => "Cpu"@,
        }
    }

    /// The variant's name.
    pub fn name(&self) -> (r: &'static str)
        ensures
            r@ == self.name_spec(),
    {
        match *self {
            DeviceType::Other => "Other",
            DeviceType::IntegratedGpu => "IntegratedGpu",
            DeviceType::DiscreteGpu => "DiscreteGpu",
            DeviceType::VirtualGpu => "VirtualGpu",
            DeviceType::Cpu => "Cpu",
        }
    }

    /// The short form of listings.
    pub open spec fn short_spec(self) -> Seq<char> {
        match self {
            DeviceType::DiscreteGpu => "dGPU"@,
            DeviceType::IntegratedGpu => "iGPU"@,
            DeviceType::VirtualGpu => "vGPU"@,
            DeviceType::Cpu => "CPU"@,
            DeviceType::Other => "other"@,
        }
    }

    /// The short form of listings.
    pub fn short(&self) -> (r: &'static str)
        ensures
            r@ == self.short_spec(),
    {
        match *self {
            DeviceType::DiscreteGpu => "dGPU",
            DeviceType::IntegratedGpu => "iGPU",
            DeviceType::VirtualGpu => "vGPU",
            DeviceType::Cpu => "CPU",
            DeviceType::Other => "other",
        }
    }
}

/// One adapter, as far as choosing and describing it goes.
#[derive(Clone, Debug)]
pub struct DeviceInfo {
    pub name: String,
    pub backend: Api,
    pub device_type: DeviceType,
    pub driver: String,
    pub driver_info: String,
    /// Largest storage binding, in bytes.
    pub max_binding_bytes: u64,
    pub max_workgroup_storage: u32,
    pub subgroup: bool,
    pub subgroup_min: u32,
    pub subgroup_max: u32,
    pub timestamps: bool,
    pub vendor_id: u32,
    pub device_id: u32,
}

/// The runtime that a name means, whatever its case.
pub open spec fn runtime_of(name: Seq<char>) -> Option<Api> {
    let n = ascii_lower_seq(name);
    if n == "vulkan"@ {
        Some(Api::Vulkan)
    } else if n == "metal"@ {
        Some(Api::Metal)
    } else if n == "dx12"@ || n == "d3d12"@ {
        Some(Api::Dx12)
    } else if n == "gl"@ {
        Some(Api::Gl)
    } else if n == "webgpu"@ {
        Some(Api::BrowserWebGpu)
    } else {
        None
    }
}

fn runtime(name: &[char]) -> (r: Option<Api>)
    ensures
        r == runtime_of(name@),
{
    let s = string_of(name);
    let l = lower_chars(s.as_str());
    let t = string_of(l.as_slice());
    if str_eq(t.as_str(), "vulkan") {
        Some(Api::Vulkan)
    } else if str_eq(t.as_str(), "metal") {
        Some(Api::Metal)
    } else if str_eq(t.as_str(), "dx12") || str_eq(t.as_str(), "d3d12") {
        Some(Api::Dx12)
    } else if str_eq(t.as_str(), "gl") {
        Some(Api::Gl)
    } else if str_eq(t.as_str(), "webgpu") {
        Some(Api::BrowserWebGpu)
    } else {
        None
    }
}

/// The name that users type for a runtime.
pub open spec fn runtime_text(api: Api) -> Seq<char> {
    match api {
        Api::Vulkan => "vulkan"@,
        Api::Metal => "metal"@,
        Api::Dx12 => "dx12"@,
        Api::Gl => "gl"@,
        Api::BrowserWebGpu => "webgpu"@,
        Api::Noop => "other"@,
    }
}

/// The name that users type for a runtime.
pub fn runtime_name(api: Api) -> (r: &'static str)
    ensures
        r@ == runtime_text(api),
{
    match api {
        Api::Vulkan => "vulkan",
        Api::Metal => "metal",
        Api::Dx12 => "dx12",
        Api::Gl => "gl",
        Api::BrowserWebGpu => "webgpu",
        Api::Noop => "other",
    }
}

/// Which device to run on.
#[derive(Clone, Debug, PartialEq, Eq)]
pub enum DeviceSelector {
    Auto,
    Runtime { api: Api, index: usize },
    Cpu,
    Index(usize),
    Name(String),
}

/// A selector as a value.
pub enum Choice {
    Auto,
    Runtime { api: Api, index: int },
    Cpu,
    Index(int),
    Name(Seq<char>),
}

/// Why a device specification is refused.
#[derive(Clone, Copy, Debug, PartialEq, Eq, Structural)]
pub enum SelectorError {
    /// What stands behind `#` is not a number.
    DeviceIndex,
    /// What stands behind the `:` of a runtime is not a number.
    RuntimeIndex,
}

impl SelectorError {
    /// What did not read as a number.
    pub fn what(&self) -> (r: &'static str)
        ensures
            r@ == match *self {
                SelectorError::DeviceIndex => "device index"@,
                SelectorError::RuntimeIndex => "runtime device index"@,
            },
    {
        match *self {
            SelectorError::DeviceIndex => "device index",
            SelectorError::RuntimeIndex => "runtime device index",
        }
    }
}

/// Where the first `:` stands from `i` on.
pub open spec fn colon_at(s: Seq<char>, i: int) -> Option<int>
    decreases s.len() - i,
{
    if i < 0 || i >= s.len() {
        None
    } else if s[i] == ':' {
        Some(i)
    } else {
        colon_at(s, i + 1)
    }
}

/// What a specification without white space around it means.
pub open spec fn chosen(s: Seq<char>) -> Result<Choice, SelectorError> {
    let max = usize::MAX as nat;
    if s.len() == 0 || ascii_lower_seq(s) == ascii_lower_seq("auto"@) {
        Ok(Choice::Auto)
    } else if ascii_lower_seq(s) == ascii_lower_seq("cpu"@) {
        Ok(Choice::Cpu)
    } else if s[0] == '#' {
        match parse_value(trimmed(s.skip(1)), max) {
            Some(n) => Ok(Choice::Index(n as int)),
            None => Err(SelectorError::DeviceIndex),
        }
    } else {
        match parse_value(s, max) {
            Some(n) => Ok(Choice::Index(n as int)),
            None => match colon_at(s, 0) {
                Some(c) => match runtime_of(s.take(c)) {
                    None => Ok(Choice::Name(lowercase_text(s))),
                    Some(api) => match parse_value(trimmed(s.skip(c + 1)), max) {
                        Some(n) => Ok(Choice::Runtime { api, index: n as int }),
                        None => Err(SelectorError::RuntimeIndex),
                    },
                },
                None => match runtime_of(s) {
                    Some(api) => Ok(Choice::Runtime { api, index: 0 }),
                    None => Ok(Choice::Name(lowercase_text(s))),
                },
            },
        }
    }
}

fn find_colon(s: &[char]) -> (r: Option<usize>)
    ensures
        match r {
            Some(i) => colon_at(s@, 0) == Some(i as int) && i < s@.len(),
            None => colon_at(s@, 0) is None,
        },
{
    let mut i: usize = 0;
    while i < s.len()
        invariant
            i <= s@.len(),
            colon_at(s@, 0) == colon_at(s@, i as int),
        decreases s@.len() - i,
    {
        if s[i] == ':' {
            return Some(i);
        }
        i = i + 1;
    }
    None
}

fn part(s: &[char], from: usize, to: usize) -> (r: Vec<char>)
    requires
        from <= to <= s@.len(),
    ensures
        r@ == s@.subrange(from as int, to as int),
{
    let mut out: Vec<char> = Vec::new();
    for i in from..to
        invariant
            from <= i <= to <= s@.len(),
            out@ == s@.subrange(from as int, i as int),
    {
        out.push(s[i]);
    }
    out
}

impl Default for DeviceSelector {
    /// The default policy.
    fn default() -> (r: DeviceSelector)
        ensures
            r is Auto,
    {
        DeviceSelector::Auto
    }
}

impl DeviceSelector {
    /// The selector as a value.
    pub open spec fn choice(self) -> Choice {
        match self {
            DeviceSelector::Auto => Choice::Auto,
            DeviceSelector::Runtime { api, index } => Choice::Runtime { api, index: index as int },
            DeviceSelector::Cpu => Choice::Cpu,
            DeviceSelector::Index(i) => Choice::Index(i as int),
            DeviceSelector::Name(n) => Choice::Name(n@),
        }
    }

    /// Reads a specification:
    ///
    /// * `auto`, or nothing: the default policy
    /// * `cpu`: the host
    /// * `<runtime>` or `<runtime>:<index>`: a device of a runtime
    /// * `#<n>` or `<n>`: an adapter by number
    /// * anything else, with a `:` in it or not: part of an adapter's name
    pub fn parse(spec: &str) -> (r: Result<DeviceSelector, SelectorError>)
        ensures
            match chosen(trimmed(spec@)) {
                Ok(c) => r is Ok && r->Ok_0.choice() == c,
                Err(e) => r is Err && r->Err_0 == e,
            },
    {
        let c = chars_of(spec);
        let s = trim(c.as_slice());
        let text = string_of(s.as_slice());
        if s.len() == 0 || eq_ignore_ascii_case(text.as_str(), "auto") {
            return Ok(DeviceSelector::Auto);
        }
        if eq_ignore_ascii_case(text.as_str(), "cpu") {
            return Ok(DeviceSelector::Cpu);
        }
        let n: usize = s.len();
        if s[0] == '#' {
            let rest = part(s.as_slice(), 1, n);
            assert(rest@ =~= s@.skip(1));
            let inner = trim(rest.as_slice());
            let number = string_of(inner.as_slice());
            return match parse_usize(number.as_str()) {
                Some(i) => Ok(DeviceSelector::Index(i)),
                None => Err(SelectorError::DeviceIndex),
            };
        }
        if let Some(i) = parse_usize(text.as_str()) {
            return Ok(DeviceSelector::Index(i));
        }
        match find_colon(s.as_slice()) {
            Some(at) => {
                let name = part(s.as_slice(), 0, at);
                assert(name@ =~= s@.take(at as int));
                let api = match runtime(name.as_slice()) {
                    Some(api) => api,
                    None => {
                        return Ok(DeviceSelector::Name(lowercased(text.as_str())));
                    },
                };
                let tail = part(s.as_slice(), at + 1, n);
                assert(tail@ =~= s@.skip(at + 1));
                let inner = trim(tail.as_slice());
                let number = string_of(inner.as_slice());
                match parse_usize(number.as_str()) {
                    Some(index) => Ok(DeviceSelector::Runtime { api, index }),
                    None => Err(SelectorError::RuntimeIndex),
                }
            },
            None => match runtime(s.as_slice()) {
                Some(api) => Ok(DeviceSelector::Runtime { api, index: 0 }),
                None => Ok(DeviceSelector::Name(lowercased(text.as_str()))),
            },
        }
    }

    /// Whether an adapter is among those that a selector picks from.
    pub fn matches(&self, info: &DeviceInfo) -> (r: bool)
        ensures
            r == fits(self.choice(), *info),
    {
        match self {
            DeviceSelector::Auto => true,
            DeviceSelector::Name(n) => {
                let l = lowercased(info.name.as_str());
                has_part(l.as_str(), n.as_str())
            },
            DeviceSelector::Index(_) => true,
            DeviceSelector::Cpu => true,
            DeviceSelector::Runtime { api, .. } => info.backend == *api,
        }
    }
}

/// `part` stands somewhere in `s`.
pub open spec fn holds_part(s: Seq<char>, part: Seq<char>) -> bool {
    exists|i: int| 0 <= i <= s.len() - part.len() && #[trigger] s.subrange(i, i + part.len()) == part
}

/// Whether `part` stands somewhere in `s`.
pub fn has_part(s: &str, part: &str) -> (r: bool)
    ensures
        r == holds_part(s@, part@),
{
    let a = chars_of(s);
    let b = chars_of(part);
    if b.len() > a.len() {
        return false;
    }
    let n: usize = a.len();
    let last: usize = n - b.len();
    let mut i: usize = 0;
    while i <= last
        invariant
            a@ == s@,
            b@ == part@,
            last == a@.len() - b@.len(),
            i <= last + 1,
            n == a@.len(),
            forall|k: int| 0 <= k < i ==> #[trigger] s@.subrange(k, k + part@.len()) != part@,
        decreases last + 1 - i,
    {
        let piece = self::part(a.as_slice(), i, i + b.len());
        if chars_eq(piece.as_slice(), b.as_slice()) {
            assert(s@.subrange(i as int, i + part@.len()) == part@);
            return true;
        }
        if i == last {
            return false;
        }
        i = i + 1;
    }
    false
}

/// Whether an adapter is among those that a selector picks from.
pub open spec fn fits(c: Choice, info: DeviceInfo) -> bool {
    match c {
        Choice::Name(n) => holds_part(lowercase_text(info.name@), n),
        Choice::Runtime { api, .. } => info.backend == api,
        _ => true,
    }
}

/// How an adapter ranks: by what it is, then by its interface.
pub open spec fn rank_spec(info: DeviceInfo) -> (u8, u8) {
    (
        match info.device_type {
            DeviceType::DiscreteGpu => 0,
            DeviceType::IntegratedGpu => 1,
            DeviceType::VirtualGpu => 2,
            DeviceType::Cpu => 3,
            DeviceType::Other => 4,
        },
        match info.backend {
            Api::Vulkan => 0,
            Api::Metal => 1,
            Api::Dx12 => 2,
            Api::Gl => 3,
            _ => 4,
        },
    )
}

/// How an adapter ranks: discrete before integrated before virtual before
/// software, then Vulkan, Metal, D3D12 and GL.
pub fn rank(info: &DeviceInfo) -> (r: (u8, u8))
    ensures
        r == rank_spec(*info),
{
    let class: u8 = match info.device_type {
        DeviceType::DiscreteGpu => 0,
        DeviceType::IntegratedGpu => 1,
        DeviceType::VirtualGpu => 2,
        DeviceType::Cpu => 3,
        DeviceType::Other => 4,
    };
    let api: u8 = match info.backend {
        Api::Vulkan => 0,
        Api::Metal => 1,
        Api::Dx12 => 2,
        Api::Gl => 3,
        _ => 4,
    };
    (class, api)
}

/// The rank as one number.
pub open spec fn rank_number(info: DeviceInfo) -> int {
    rank_spec(info).0 * 8 + rank_spec(info).1
}

/// The numbers order adapters as their ranks do.
pub proof fn law_rank_number_orders(a: DeviceInfo, b: DeviceInfo)
    ensures
        rank_number(a) < rank_number(b) <==> rank_spec(a).0 < rank_spec(b).0 || (rank_spec(a).0 == rank_spec(b).0
            && rank_spec(a).1 < rank_spec(b).1),
{
}

/// The adapters that a selector picks from, of the first `n`.
pub open spec fn hits(infos: Seq<DeviceInfo>, c: Choice, n: nat) -> Seq<usize>
    decreases n,
{
    if n == 0 {
        Seq::empty()
    } else if fits(c, infos[n - 1]) {
        hits(infos, c, (n - 1) as nat).push((n - 1) as usize)
    } else {
        hits(infos, c, (n - 1) as nat)
    }
}

/// The sort keys of a list of adapters: their ranks.
pub open spec fn rank_keys(infos: Seq<DeviceInfo>, h: Seq<usize>) -> Seq<(int, Seq<char>)> {
    h.map_values(|a: usize| (rank_number(infos[a as int]), Seq::<char>::empty()))
}

/// The adapters that a selector picks from, best first: by rank, and equals in
/// the order they were enumerated.
pub open spec fn picks(infos: Seq<DeviceInfo>, c: Choice) -> Seq<usize> {
    let h = hits(infos, c, infos.len());
    ordered(rank_keys(infos, h)).map_values(|i: usize| h[i as int])
}

pub proof fn lemma_hits(infos: Seq<DeviceInfo>, c: Choice, n: nat)
    requires
        n <= infos.len() <= usize::MAX,
    ensures
        forall|p: int| 0 <= p < hits(infos, c, n).len() ==> #[trigger] hits(infos, c, n)[p] < n && fits(
            c,
            infos[hits(infos, c, n)[p] as int],
        ),
        forall|a: usize| a < n && fits(c, infos[a as int]) ==> #[trigger] hits(infos, c, n).contains(a),
        hits(infos, c, n).len() <= n,
    decreases n,
{
    if n > 0 {
        let m = (n - 1) as nat;
        let h = hits(infos, c, m);
        let g = hits(infos, c, n);
        lemma_hits(infos, c, m);
        assert forall|p: int| 0 <= p < g.len() implies #[trigger] g[p] < n && fits(c, infos[g[p] as int]) by {
            if p < h.len() {
                assert(g[p] == h[p]);
            }
        }
        assert forall|a: usize| a < n && fits(c, infos[a as int]) implies #[trigger] g.contains(a) by {
            if a < m {
                assert(h.contains(a));
                let p = choose|p: int| 0 <= p < h.len() && h[p] == a;
                assert(g[p] == a);
            } else {
                assert(g[g.len() - 1] == a);
            }
        }
    }
}

pub proof fn lemma_hits_ascend(infos: Seq<DeviceInfo>, c: Choice, n: nat)
    requires
        n <= infos.len() <= usize::MAX,
    ensures
        forall|p: int, q: int| 0 <= p < q < hits(infos, c, n).len() ==> hits(infos, c, n)[p] < hits(infos, c, n)[q],
    decreases n,
{
    if n > 0 {
        lemma_hits(infos, c, (n - 1) as nat);
        lemma_hits_ascend(infos, c, (n - 1) as nat);
    }
}

/// A selector picks exactly from the adapters that fit it.
pub proof fn law_picks_fit(infos: Seq<DeviceInfo>, c: Choice, a: usize)
    requires
        infos.len() <= usize::MAX,
    ensures
        picks(infos, c).contains(a) <==> a < infos.len() && fits(c, infos[a as int]),
{
    let h = hits(infos, c, infos.len());
    let k = rank_keys(infos, h);
    let q = ordered(k);
    lemma_hits(infos, c, infos.len());
    law_order_exists(k);
    law_in_order_complete(k, q);
    let p = picks(infos, c);
    if p.contains(a) {
        let i = choose|i: int| 0 <= i < p.len() && p[i] == a;
        assert(q[i] < k.len());
        assert(h[q[i] as int] == a);
    }
    if a < infos.len() && fits(c, infos[a as int]) {
        assert(h.contains(a));
        let j = choose|j: int| 0 <= j < h.len() && h[j] == a;
        assert(q.contains(j as usize));
        let i = choose|i: int| 0 <= i < q.len() && q[i] == j as usize;
        assert(p[i] == a);
    }
}

fn matching(infos: &Vec<DeviceInfo>, sel: &DeviceSelector) -> (r: Vec<usize>)
    ensures
        r@ == hits(infos@, sel.choice(), infos@.len()),
{
    let mut r: Vec<usize> = Vec::new();
    for i in 0..infos.len()
        invariant
            r@ == hits(infos@, sel.choice(), i as nat),
    {
        if sel.matches(&infos[i]) {
            r.push(i);
        }
    }
    r
}

/// The adapters that a selector picks from, best first.
pub fn candidates(infos: &Vec<DeviceInfo>, sel: &DeviceSelector) -> (r: Vec<usize>)
    ensures
        r@ == picks(infos@, sel.choice()),
        r@.len() == hits(infos@, sel.choice(), infos@.len()).len(),
{
    let _n: usize = infos.len();
    let h = matching(infos, sel);
    proof {
        lemma_hits(infos@, sel.choice(), infos@.len());
    }
    let mut k: Vec<Key> = Vec::new();
    for i in 0..h.len()
        invariant
            h@ == hits(infos@, sel.choice(), infos@.len()),
            forall|p: int| 0 <= p < h@.len() ==> #[trigger] h@[p] < infos@.len(),
            keys(k@) == rank_keys(infos@, h@).take(i as int),
    {
        let (class, api) = rank(&infos[h[i]]);
        let ghost before = k@;
        let one = Key { rank: class as u64 * 8 + api as u64, name: Vec::new() };
        k.push(one);
        proof {
            assert(one.name@ =~= Seq::<char>::empty());
            assert(keys(k@) =~= keys(before).push(crate::order::key(one)));
            assert(rank_keys(infos@, h@).take(i + 1) =~= rank_keys(infos@, h@).take(i as int).push(
                rank_keys(infos@, h@)[i as int],
            ));
        }
    }
    assert(rank_keys(infos@, h@).take(h@.len() as int) =~= rank_keys(infos@, h@));
    let o = sorted(&k);
    let mut r: Vec<usize> = Vec::new();
    for i in 0..o.len()
        invariant
            o@.len() == h@.len(),
            forall|p: int| 0 <= p < o@.len() ==> #[trigger] o@[p] < h@.len(),
            r@ == o@.map_values(|i: usize| h@[i as int]).take(i as int),
    {
        r.push(h[o[i]]);
        assert(r@ =~= o@.map_values(|i: usize| h@[i as int]).take(i + 1));
    }
    assert(o@.map_values(|i: usize| h@[i as int]).take(o@.len() as int) =~= o@.map_values(|i: usize| h@[i as int]));
    r
}

} // verus!

//! Startup graphics inventory. Codec capability confirmation belongs to the media backend.
use vstd::prelude::*;

verus! {

/// The PCI vendor of Intel adapters.
pub const INTEL_VENDOR: u32 = 0x8086;

/// The PCI vendor of NVIDIA adapters.
pub const NVIDIA_VENDOR: u32 = 0x10DE;

#[derive(Clone, Copy, Debug, PartialEq, Eq, Hash, Structural)]
pub enum AdapterClass {
    Discrete,
    Integrated,
    Virtual,
    Software,
    Other,
}

#[derive(Debug, PartialEq, Eq, Hash)]
pub struct GraphicsAdapter {
    pub name: String,
    pub vendor: u32,
    pub device: u32,
    pub class: AdapterClass,
    pub backend: String,
}

/// The mathematical value of a [`GraphicsAdapter`].
pub struct AdapterModel {
    pub name: Seq<char>,
    pub vendor: u32,
    pub device: u32,
    pub class: AdapterClass,
    pub backend: Seq<char>,
}

impl View for GraphicsAdapter {
    type V = AdapterModel;

    open spec fn view(&self) -> AdapterModel {
        AdapterModel {
            name: self.name@,
            vendor: self.vendor,
            device: self.device,
            class: self.class,
            backend: self.backend@,
        }
    }
}

impl Clone for GraphicsAdapter {
    fn clone(&self) -> (copy: Self)
        ensures
            copy@ == self@,
    {
        GraphicsAdapter {
            name: self.name.clone(),
            vendor: self.vendor,
            device: self.device,
            class: self.class,
            backend: self.backend.clone(),
        }
    }
}

/// The models of a list of adapters.
pub open spec fn adapter_models(adapters: Seq<GraphicsAdapter>) -> Seq<AdapterModel> {
    Seq::new(adapters.len(), |i: int| adapters[i]@)
}

/// Whether two entries are the same piece of hardware, seen through any two backends.
pub open spec fn same_adapter(left: AdapterModel, right: AdapterModel) -> bool {
    left.vendor == right.vendor && left.device == right.device && left.class == right.class
        && left.name == right.name
}

/// Whether `adapters` holds this piece of hardware.
pub open spec fn holds_adapter(adapters: Seq<AdapterModel>, adapter: AdapterModel) -> bool {
    exists|i: int| 0 <= i < adapters.len() && same_adapter(#[trigger] adapters[i], adapter)
}

/// The first entry of every piece of hardware, in the order in which they were listed.
pub open spec fn distinct_adapters(adapters: Seq<AdapterModel>) -> Seq<AdapterModel>
    decreases adapters.len(),
{
    if adapters.len() == 0 {
        Seq::empty()
    } else {
        let before = distinct_adapters(adapters.drop_last());
        if holds_adapter(before, adapters.last()) {
            before
        } else {
            before.push(adapters.last())
        }
    }
}

/// Whether an adapter is of a class, and of a vendor where one is asked for.
pub open spec fn fits(adapter: AdapterModel, class: AdapterClass, vendor: Option<u32>) -> bool {
    adapter.class == class && (vendor matches Some(vendor) ==> adapter.vendor == vendor)
}

/// The name of the first adapter that fits.
pub open spec fn first_fit(
    adapters: Seq<AdapterModel>,
    class: AdapterClass,
    vendor: Option<u32>,
) -> Option<Seq<char>>
    decreases adapters.len(),
{
    if adapters.len() == 0 {
        None
    } else if fits(adapters[0], class, vendor) {
        Some(adapters[0].name)
    } else {
        first_fit(adapters.drop_first(), class, vendor)
    }
}

/// Whether an adapter of this vendor is there.
pub open spec fn has_vendor(adapters: Seq<AdapterModel>, vendor: u32) -> bool {
    exists|i: int| 0 <= i < adapters.len() && (#[trigger] adapters[i]).vendor == vendor
}

/// The first of two choices that is there.
pub open spec fn or_else(first: Option<Seq<char>>, second: Option<Seq<char>>) -> Option<Seq<char>> {
    if first is Some {
        first
    } else {
        second
    }
}

/// The adapter that renders: a discrete one before an integrated one.
pub open spec fn render_choice(adapters: Seq<AdapterModel>) -> Option<Seq<char>> {
    or_else(
        first_fit(adapters, AdapterClass::Discrete, None),
        first_fit(adapters, AdapterClass::Integrated, None),
    )
}

/// The adapter that media work goes to: Intel's integrated one, else a discrete one, else any.
pub open spec fn media_choice(adapters: Seq<AdapterModel>) -> Option<Seq<char>> {
    or_else(
        first_fit(adapters, AdapterClass::Integrated, Some(INTEL_VENDOR)),
        or_else(
            first_fit(adapters, AdapterClass::Discrete, None),
            if adapters.len() > 0 {
                Some(adapters[0].name)
            } else {
                None
            },
        ),
    )
}

#[derive(Debug, PartialEq, Eq)]
pub struct HardwareProfile {
    pub adapters: Vec<GraphicsAdapter>,
    /// Preferred for rendering, compositing, effects, and monitor presentation.
    pub render_adapter: Option<String>,
    /// Candidate for future hardware video decode/encode work.
    pub media_adapter: Option<String>,
    /// Presence is only a candidate; the media backend must confirm codec support.
    pub intel_quick_sync_candidate: bool,
    pub has_discrete_gpu: bool,
    pub has_integrated_gpu: bool,
    /// NVIDIA vendor adapter present. RTX VSR still needs the runtime folder.
    pub has_nvidia_gpu: bool,
}

fn copy_name(name: &Option<String>) -> (copy: Option<String>)
    ensures
        name_model(copy) == name_model(*name),
{
    match name {
        Some(name) => Some(name.clone()),
        None => None,
    }
}

impl Clone for HardwareProfile {
    fn clone(&self) -> (copy: Self)
        ensures
            adapter_models(copy.adapters@) == adapter_models(self.adapters@),
            name_model(copy.render_adapter) == name_model(self.render_adapter),
            name_model(copy.media_adapter) == name_model(self.media_adapter),
            copy.intel_quick_sync_candidate == self.intel_quick_sync_candidate,
            copy.has_discrete_gpu == self.has_discrete_gpu,
            copy.has_integrated_gpu == self.has_integrated_gpu,
            copy.has_nvidia_gpu == self.has_nvidia_gpu,
    {
        let mut adapters: Vec<GraphicsAdapter> = Vec::new();
        let mut i: usize = 0;
        while i < self.adapters.len()
            invariant
                i <= self.adapters@.len(),
                adapters@.len() == i,
                forall|j: int| 0 <= j < i ==> (#[trigger] adapters@[j])@ == self.adapters@[j]@,
            decreases self.adapters@.len() - i,
        {
            adapters.push(self.adapters[i].clone());
            i += 1;
        }
        assert(adapter_models(adapters@) =~= adapter_models(self.adapters@));
        HardwareProfile {
            adapters,
            render_adapter: copy_name(&self.render_adapter),
            media_adapter: copy_name(&self.media_adapter),
            intel_quick_sync_candidate: self.intel_quick_sync_candidate,
            has_discrete_gpu: self.has_discrete_gpu,
            has_integrated_gpu: self.has_integrated_gpu,
            has_nvidia_gpu: self.has_nvidia_gpu,
        }
    }
}

impl Default for HardwareProfile {
    fn default() -> (empty: Self)
        ensures
            empty.adapters@.len() == 0,
            empty.render_adapter is None,
            empty.media_adapter is None,
            !empty.intel_quick_sync_candidate,
            !empty.has_discrete_gpu,
            !empty.has_integrated_gpu,
            !empty.has_nvidia_gpu,
    {
        HardwareProfile {
            adapters: Vec::new(),
            render_adapter: None,
            media_adapter: None,
            intel_quick_sync_candidate: false,
            has_discrete_gpu: false,
            has_integrated_gpu: false,
            has_nvidia_gpu: false,
        }
    }
}

/// The model of an optional name.
pub open spec fn name_model(name: Option<String>) -> Option<Seq<char>> {
    match name {
        Some(name) => Some(name@),
        None => None,
    }
}

fn is_same(left: &GraphicsAdapter, right: &GraphicsAdapter) -> (same: bool)
    ensures
        same == same_adapter(left@, right@),
{
    left.vendor == right.vendor && left.device == right.device && left.class == right.class
        && left.name == right.name
}

fn is_listed(adapters: &Vec<GraphicsAdapter>, adapter: &GraphicsAdapter) -> (listed: bool)
    ensures
        listed == holds_adapter(adapter_models(adapters@), adapter@),
{
    let ghost models = adapter_models(adapters@);
    let mut i: usize = 0;
    while i < adapters.len()
        invariant
            i <= adapters@.len(),
            models == adapter_models(adapters@),
            forall|j: int| 0 <= j < i ==> !same_adapter(#[trigger] models[j], adapter@),
        decreases adapters@.len() - i,
    {
        assert(models[i as int] == adapters@[i as int]@);
        if is_same(&adapters[i], adapter) {
            assert(same_adapter(models[i as int], adapter@));
            return true;
        }
        i += 1;
    }
    false
}

fn collapse(adapters: Vec<GraphicsAdapter>) -> (distinct: Vec<GraphicsAdapter>)
    ensures
        adapter_models(distinct@) == distinct_adapters(adapter_models(adapters@)),
{
    let ghost models = adapter_models(adapters@);
    let mut distinct: Vec<GraphicsAdapter> = Vec::new();
    let mut i: usize = 0;
    assert(adapter_models(distinct@) =~= distinct_adapters(models.take(0)));
    while i < adapters.len()
        invariant
            i <= adapters@.len(),
            models == adapter_models(adapters@),
            adapter_models(distinct@) == distinct_adapters(models.take(i as int)),
        decreases adapters@.len() - i,
    {
        assert(models.take(i + 1).drop_last() =~= models.take(i as int));
        assert(models.take(i + 1).last() == adapters@[i as int]@);
        let ghost before = adapter_models(distinct@);
        if !is_listed(&distinct, &adapters[i]) {
            distinct.push(adapters[i].clone());
            assert(adapter_models(distinct@) =~= before.push(adapters@[i as int]@));
        }
        i += 1;
    }
    assert(models.take(i as int) =~= models);
    distinct
}

fn find_fit(adapters: &Vec<GraphicsAdapter>, class: AdapterClass, vendor: Option<u32>) -> (found:
    Option<String>)
    ensures
        name_model(found) == first_fit(adapter_models(adapters@), class, vendor),
{
    let ghost models = adapter_models(adapters@);
    let mut i: usize = 0;
    assert(models.skip(0) =~= models);
    while i < adapters.len()
        invariant
            i <= adapters@.len(),
            models == adapter_models(adapters@),
            first_fit(models, class, vendor) == first_fit(models.skip(i as int), class, vendor),
        decreases adapters@.len() - i,
    {
        assert(models.skip(i as int)[0] == adapters@[i as int]@);
        assert(models.skip(i as int).drop_first() =~= models.skip(i + 1));
        let vendor_fits = match vendor {
            Some(vendor) => adapters[i].vendor == vendor,
            None => true,
        };
        if adapters[i].class == class && vendor_fits {
            return Some(adapters[i].name.clone());
        }
        i += 1;
    }
    None
}

fn any_of_vendor(adapters: &Vec<GraphicsAdapter>, vendor: u32) -> (found: bool)
    ensures
        found == has_vendor(adapter_models(adapters@), vendor),
{
    let ghost models = adapter_models(adapters@);
    let mut i: usize = 0;
    while i < adapters.len()
        invariant
            i <= adapters@.len(),
            models == adapter_models(adapters@),
            forall|j: int| 0 <= j < i ==> (#[trigger] models[j]).vendor != vendor,
        decreases adapters@.len() - i,
    {
        assert(models[i as int] == adapters@[i as int]@);
        if adapters[i].vendor == vendor {
            assert(models[i as int].vendor == vendor);
            return true;
        }
        i += 1;
    }
    false
}

/// Draws up the profile of the adapters that the graphics backends list. An adapter that several
/// backends list counts once.
pub fn build_profile(adapters: Vec<GraphicsAdapter>) -> (profile: HardwareProfile)
    ensures
        ({
            let distinct = distinct_adapters(adapter_models(adapters@));
            &&& adapter_models(profile.adapters@) == distinct
            &&& name_model(profile.render_adapter) == render_choice(distinct)
            &&& name_model(profile.media_adapter) == media_choice(distinct)
            &&& profile.intel_quick_sync_candidate == (first_fit(
                distinct,
                AdapterClass::Integrated,
                Some(INTEL_VENDOR),
            ) is Some)
            &&& profile.has_discrete_gpu == (first_fit(distinct, AdapterClass::Discrete, None)
                is Some)
            &&& profile.has_integrated_gpu == (first_fit(distinct, AdapterClass::Integrated, None)
                is Some)
            &&& profile.has_nvidia_gpu == has_vendor(distinct, NVIDIA_VENDOR)
        }),
{
    let adapters = collapse(adapters);
    let discrete = find_fit(&adapters, AdapterClass::Discrete, None);
    let integrated = find_fit(&adapters, AdapterClass::Integrated, None);
    let quick_sync = find_fit(&adapters, AdapterClass::Integrated, Some(INTEL_VENDOR));
    let has_discrete_gpu: bool = discrete.is_some();
    let has_integrated_gpu: bool = integrated.is_some();
    let intel_quick_sync_candidate: bool = quick_sync.is_some();
    let media_adapter = match quick_sync {
        Some(name) => Some(name),
        None => match &discrete {
            Some(name) => Some(name.clone()),
            None => if adapters.len() > 0 {
                Some(adapters[0].name.clone())
            } else {
                None
            },
        },
    };
    let render_adapter = match discrete {
        Some(name) => Some(name),
        None => integrated,
    };
    let has_nvidia_gpu: bool = any_of_vendor(&adapters, NVIDIA_VENDOR);
    HardwareProfile {
        adapters,
        render_adapter,
        media_adapter,
        intel_quick_sync_candidate,
        has_discrete_gpu,
        has_integrated_gpu,
        has_nvidia_gpu,
    }
}

/// No piece of hardware is listed twice in a profile, none is lost, and a profile that is drawn
/// up again stays the same.
pub proof fn law_profile_lists_each_adapter_once(adapters: Seq<AdapterModel>)
    ensures
        ({
            let distinct = distinct_adapters(adapters);
            &&& forall|i: int, j: int|
                0 <= i < j < distinct.len() ==> !same_adapter(
                    #[trigger] distinct[i],
                    #[trigger] distinct[j],
                )
            &&& forall|i: int|
                0 <= i < adapters.len() ==> holds_adapter(distinct, #[trigger] adapters[i])
            &&& distinct_adapters(distinct) == distinct
        }),
    decreases adapters.len(),
{
    if adapters.len() == 0 {
        assert(distinct_adapters(Seq::<AdapterModel>::empty()) =~= Seq::empty());
    } else {
        let rest = adapters.drop_last();
        let last = adapters.last();
        law_profile_lists_each_adapter_once(rest);
        let before = distinct_adapters(rest);
        let distinct = distinct_adapters(adapters);
        assert forall|i: int| 0 <= i < adapters.len() implies holds_adapter(
            distinct,
            #[trigger] adapters[i],
        ) by {
            if i < rest.len() {
                assert(rest[i] == adapters[i]);
                assert(holds_adapter(before, rest[i]));
                let k = choose|k: int|
                    0 <= k < before.len() && same_adapter(#[trigger] before[k], rest[i]);
                assert(same_adapter(distinct[k], adapters[i]));
            } else if !holds_adapter(before, last) {
                assert(same_adapter(distinct[before.len() as int], last));
            }
        }
        if !holds_adapter(before, last) {
            assert(distinct.drop_last() =~= before);
            assert forall|i: int, j: int| 0 <= i < j < distinct.len() implies !same_adapter(
                #[trigger] distinct[i],
                #[trigger] distinct[j],
            ) by {
                assert(distinct[i] == before[i]);
                if j < before.len() {
                    assert(distinct[j] == before[j]);
                }
            }
        }
    }
}

proof fn lemma_first_fit_push(
    adapters: Seq<AdapterModel>,
    last: AdapterModel,
    class: AdapterClass,
    vendor: Option<u32>,
)
    ensures
        first_fit(adapters.push(last), class, vendor) == (if first_fit(adapters, class, vendor)
            is Some {
            first_fit(adapters, class, vendor)
        } else if fits(last, class, vendor) {
            Some(last.name)
        } else {
            None
        }),
    decreases adapters.len(),
{
    let longer = adapters.push(last);
    if adapters.len() == 0 {
        assert(longer.drop_first() =~= Seq::empty());
        assert(first_fit(longer.drop_first(), class, vendor) is None);
    } else {
        assert(longer.drop_first() =~= adapters.drop_first().push(last));
        lemma_first_fit_push(adapters.drop_first(), last, class, vendor);
    }
}

proof fn lemma_first_fit_at(
    adapters: Seq<AdapterModel>,
    class: AdapterClass,
    vendor: Option<u32>,
    i: int,
)
    requires
        0 <= i < adapters.len(),
        fits(adapters[i], class, vendor),
        forall|j: int| 0 <= j < i ==> !fits(#[trigger] adapters[j], class, vendor),
    ensures
        first_fit(adapters, class, vendor) == Some(adapters[i].name),
    decreases adapters.len(),
{
    if i > 0 {
        assert(!fits(adapters[0], class, vendor));
        let rest = adapters.drop_first();
        assert(rest[i - 1] == adapters[i]);
        assert forall|j: int| 0 <= j < i - 1 implies !fits(#[trigger] rest[j], class, vendor) by {
            assert(rest[j] == adapters[j + 1]);
        }
        lemma_first_fit_at(rest, class, vendor, i - 1);
    }
}

proof fn lemma_no_fit(adapters: Seq<AdapterModel>, class: AdapterClass, vendor: Option<u32>)
    requires
        forall|j: int| 0 <= j < adapters.len() ==> !fits(#[trigger] adapters[j], class, vendor),
    ensures
        first_fit(adapters, class, vendor) is None,
    decreases adapters.len(),
{
    if adapters.len() > 0 {
        assert(!fits(adapters[0], class, vendor));
        let rest = adapters.drop_first();
        assert forall|j: int| 0 <= j < rest.len() implies !fits(
            #[trigger] rest[j],
            class,
            vendor,
        ) by {
            assert(rest[j] == adapters[j + 1]);
        }
        lemma_no_fit(rest, class, vendor);
    }
}

proof fn lemma_fit_is_found(
    adapters: Seq<AdapterModel>,
    class: AdapterClass,
    vendor: Option<u32>,
    i: int,
)
    requires
        0 <= i < adapters.len(),
        fits(adapters[i], class, vendor),
    ensures
        first_fit(adapters, class, vendor) is Some,
    decreases adapters.len(),
{
    if !fits(adapters[0], class, vendor) {
        assert(adapters.drop_first()[i - 1] == adapters[i]);
        lemma_fit_is_found(adapters.drop_first(), class, vendor, i - 1);
    }
}

/// Listing an adapter through several backends changes nothing about which one is found first.
proof fn lemma_collapse_keeps_first_fit(
    adapters: Seq<AdapterModel>,
    class: AdapterClass,
    vendor: Option<u32>,
)
    ensures
        first_fit(distinct_adapters(adapters), class, vendor) == first_fit(adapters, class, vendor),
    decreases adapters.len(),
{
    if adapters.len() > 0 {
        let rest = adapters.drop_last();
        let last = adapters.last();
        let before = distinct_adapters(rest);
        lemma_collapse_keeps_first_fit(rest, class, vendor);
        assert(adapters =~= rest.push(last));
        lemma_first_fit_push(rest, last, class, vendor);
        if holds_adapter(before, last) {
            if fits(last, class, vendor) {
                let k = choose|k: int|
                    0 <= k < before.len() && same_adapter(#[trigger] before[k], last);
                lemma_fit_is_found(before, class, vendor, k);
            }
        } else {
            lemma_first_fit_push(before, last, class, vendor);
        }
    }
}

/// The first discrete adapter that is listed renders; without one, the first integrated adapter
/// does; without either, none.
pub proof fn law_discrete_renders_before_integrated(listed: Seq<AdapterModel>, i: int)
    ensures
        ({
            let render = render_choice(distinct_adapters(listed));
            &&& (0 <= i < listed.len() && listed[i].class == AdapterClass::Discrete && forall|j: int|
                0 <= j < i ==> (#[trigger] listed[j]).class != AdapterClass::Discrete) ==> render
                == Some(listed[i].name)
            &&& (0 <= i < listed.len() && listed[i].class == AdapterClass::Integrated && (forall|
                j: int,
            |
                0 <= j < listed.len() ==> (#[trigger] listed[j]).class != AdapterClass::Discrete)
                && forall|j: int|
                0 <= j < i ==> (#[trigger] listed[j]).class != AdapterClass::Integrated) ==> render
                == Some(listed[i].name)
            &&& (forall|j: int|
                0 <= j < listed.len() ==> (#[trigger] listed[j]).class != AdapterClass::Discrete
                    && listed[j].class != AdapterClass::Integrated) ==> render is None
        }),
{
    lemma_collapse_keeps_first_fit(listed, AdapterClass::Discrete, None);
    lemma_collapse_keeps_first_fit(listed, AdapterClass::Integrated, None);
    if 0 <= i < listed.len() && listed[i].class == AdapterClass::Discrete && forall|j: int|
        0 <= j < i ==> (#[trigger] listed[j]).class != AdapterClass::Discrete {
        lemma_first_fit_at(listed, AdapterClass::Discrete, None, i);
    }
    if forall|j: int|
        0 <= j < listed.len() ==> (#[trigger] listed[j]).class != AdapterClass::Discrete {
        lemma_no_fit(listed, AdapterClass::Discrete, None);
    }
    if 0 <= i < listed.len() && listed[i].class == AdapterClass::Integrated && forall|j: int|
        0 <= j < i ==> (#[trigger] listed[j]).class != AdapterClass::Integrated {
        lemma_first_fit_at(listed, AdapterClass::Integrated, None, i);
    }
    if forall|j: int|
        0 <= j < listed.len() ==> (#[trigger] listed[j]).class != AdapterClass::Integrated {
        lemma_no_fit(listed, AdapterClass::Integrated, None);
    }
}

/// Media work goes to the first integrated Intel adapter that is listed; without one, to the first
/// discrete adapter; without either, to the first adapter at all. Only an empty list has none.
pub proof fn law_media_work_prefers_quick_sync(listed: Seq<AdapterModel>, i: int)
    ensures
        ({
            let media = media_choice(distinct_adapters(listed));
            let no_intel = forall|j: int|
                0 <= j < listed.len() ==> !((#[trigger] listed[j]).class == AdapterClass::Integrated
                    && listed[j].vendor == 0x8086);
            let no_discrete = forall|j: int|
                0 <= j < listed.len() ==> (#[trigger] listed[j]).class != AdapterClass::Discrete;
            &&& (0 <= i < listed.len() && listed[i].class == AdapterClass::Integrated
                && listed[i].vendor == 0x8086 && forall|j: int|
                0 <= j < i ==> !((#[trigger] listed[j]).class == AdapterClass::Integrated
                    && listed[j].vendor == 0x8086)) ==> media == Some(listed[i].name)
            &&& (no_intel && 0 <= i < listed.len() && listed[i].class == AdapterClass::Discrete
                && forall|j: int|
                0 <= j < i ==> (#[trigger] listed[j]).class != AdapterClass::Discrete) ==> media
                == Some(listed[i].name)
            &&& (no_intel && no_discrete && listed.len() > 0) ==> media == Some(listed[0].name)
            &&& media is None <==> listed.len() == 0
        }),
{
    let intel = Some(INTEL_VENDOR);
    lemma_collapse_keeps_first_fit(listed, AdapterClass::Integrated, intel);
    lemma_collapse_keeps_first_fit(listed, AdapterClass::Discrete, None);
    lemma_collapse_keeps_the_head(listed);
    if 0 <= i < listed.len() && fits(listed[i], AdapterClass::Integrated, intel) && forall|j: int|
        0 <= j < i ==> !fits(#[trigger] listed[j], AdapterClass::Integrated, intel) {
        lemma_first_fit_at(listed, AdapterClass::Integrated, intel, i);
    }
    if forall|j: int|
        0 <= j < listed.len() ==> !fits(#[trigger] listed[j], AdapterClass::Integrated, intel) {
        lemma_no_fit(listed, AdapterClass::Integrated, intel);
    }
    if 0 <= i < listed.len() && listed[i].class == AdapterClass::Discrete && forall|j: int|
        0 <= j < i ==> (#[trigger] listed[j]).class != AdapterClass::Discrete {
        lemma_first_fit_at(listed, AdapterClass::Discrete, None, i);
    }
    if forall|j: int|
        0 <= j < listed.len() ==> (#[trigger] listed[j]).class != AdapterClass::Discrete {
        lemma_no_fit(listed, AdapterClass::Discrete, None);
    }
    if listed.len() == 0 {
        assert(distinct_adapters(listed) =~= Seq::empty());
    }
}

proof fn lemma_collapse_keeps_the_head(adapters: Seq<AdapterModel>)
    ensures
        adapters.len() > 0 ==> distinct_adapters(adapters).len() > 0 && distinct_adapters(
            adapters,
        )[0] == adapters[0],
    decreases adapters.len(),
{
    if adapters.len() > 1 {
        lemma_collapse_keeps_the_head(adapters.drop_last());
    } else if adapters.len() == 1 {
        assert(distinct_adapters(adapters.drop_last()) =~= Seq::empty());
    }
}

/// What a profile says is there is there, and what is there is said: classes, Intel's integrated
/// adapter and NVIDIA's adapters.
pub proof fn law_presence_is_exact(listed: Seq<AdapterModel>, class: AdapterClass, i: int)
    ensures
        ({
            let distinct = distinct_adapters(listed);
            &&& (0 <= i < listed.len() && listed[i].class == class) ==> first_fit(
                distinct,
                class,
                None,
            ) is Some
            &&& (forall|j: int| 0 <= j < listed.len() ==> (#[trigger] listed[j]).class != class)
                ==> first_fit(distinct, class, None) is None
            &&& (0 <= i < listed.len() && listed[i].class == class && listed[i].vendor == 0x8086)
                ==> first_fit(distinct, class, Some(INTEL_VENDOR)) is Some
            &&& (forall|j: int|
                0 <= j < listed.len() ==> !((#[trigger] listed[j]).class == class
                    && listed[j].vendor == 0x8086)) ==> first_fit(
                distinct,
                class,
                Some(INTEL_VENDOR),
            ) is None
            &&& (0 <= i < listed.len() && listed[i].vendor == 0x10DE) ==> has_vendor(
                distinct,
                NVIDIA_VENDOR,
            )
            &&& (forall|j: int| 0 <= j < listed.len() ==> (#[trigger] listed[j]).vendor != 0x10DE)
                ==> !has_vendor(distinct, NVIDIA_VENDOR)
        }),
{
    let intel = Some(INTEL_VENDOR);
    let distinct = distinct_adapters(listed);
    lemma_collapse_keeps_first_fit(listed, class, None);
    lemma_collapse_keeps_first_fit(listed, class, intel);
    if 0 <= i < listed.len() && fits(listed[i], class, None) {
        lemma_fit_is_found(listed, class, None, i);
    }
    if 0 <= i < listed.len() && fits(listed[i], class, intel) {
        lemma_fit_is_found(listed, class, intel, i);
    }
    if forall|j: int| 0 <= j < listed.len() ==> (#[trigger] listed[j]).class != class {
        lemma_no_fit(listed, class, None);
    }
    if forall|j: int|
        0 <= j < listed.len() ==> !((#[trigger] listed[j]).class == class && listed[j].vendor
            == 0x8086) {
        lemma_no_fit(listed, class, intel);
    }
    if 0 <= i < listed.len() && listed[i].vendor == 0x10DE {
        law_profile_lists_each_adapter_once(listed);
        assert(holds_adapter(distinct, listed[i]));
        let k = choose|k: int|
            0 <= k < distinct.len() && same_adapter(#[trigger] distinct[k], listed[i]);
        assert(distinct[k].vendor == NVIDIA_VENDOR);
    }
    if has_vendor(distinct, NVIDIA_VENDOR) {
        let k = choose|k: int|
            0 <= k < distinct.len() && (#[trigger] distinct[k]).vendor == NVIDIA_VENDOR;
        let m = law_profile_keeps_first_entries(listed, k);
        assert(listed[m].vendor == NVIDIA_VENDOR);
    }
}

/// Each entry of a profile is the first one listed of its hardware: no earlier entry has the same
/// vendor, device, class and name.
pub proof fn law_profile_keeps_first_entries(listed: Seq<AdapterModel>, k: int) -> (i: int)
    requires
        0 <= k < distinct_adapters(listed).len(),
    ensures
        0 <= i < listed.len(),
        distinct_adapters(listed)[k] == listed[i],
        k <= i,
        forall|j: int|
            0 <= j < i ==> !((#[trigger] listed[j]).vendor == listed[i].vendor && listed[j].device
                == listed[i].device && listed[j].class == listed[i].class && listed[j].name
                == listed[i].name),
    decreases listed.len(),
{
    let rest = listed.drop_last();
    let before = distinct_adapters(rest);
    if k < before.len() {
        let i = law_profile_keeps_first_entries(rest, k);
        assert forall|j: int| 0 <= j < i implies !((#[trigger] listed[j]).vendor == listed[i].vendor
            && listed[j].device == listed[i].device && listed[j].class == listed[i].class
            && listed[j].name == listed[i].name) by {
            assert(rest[j] == listed[j]);
        }
        i
    } else {
        let i = listed.len() - 1;
        lemma_collapse_is_no_longer(rest);
        assert forall|j: int| 0 <= j < i implies !((#[trigger] listed[j]).vendor == listed[i].vendor
            && listed[j].device == listed[i].device && listed[j].class == listed[i].class
            && listed[j].name == listed[i].name) by {
            law_profile_lists_each_adapter_once(rest);
            assert(holds_adapter(before, rest[j]));
            let m = choose|m: int|
                0 <= m < before.len() && same_adapter(#[trigger] before[m], rest[j]);
            assert(!same_adapter(before[m], listed[i]));
        }
        i
    }
}

proof fn lemma_collapse_is_no_longer(adapters: Seq<AdapterModel>)
    ensures
        distinct_adapters(adapters).len() <= adapters.len(),
    decreases adapters.len(),
{
    if adapters.len() > 0 {
        lemma_collapse_is_no_longer(adapters.drop_last());
    }
}

/// The entries of a profile stand in the order in which they were listed.
pub proof fn law_profile_keeps_the_order(listed: Seq<AdapterModel>, k: int, l: int) -> (places: (
    int,
    int,
))
    requires
        0 <= k < l < distinct_adapters(listed).len(),
    ensures
        0 <= places.0 < places.1 < listed.len(),
        distinct_adapters(listed)[k] == listed[places.0],
        distinct_adapters(listed)[l] == listed[places.1],
    decreases listed.len(),
{
    let rest = listed.drop_last();
    let before = distinct_adapters(rest);
    if l < before.len() {
        law_profile_keeps_the_order(rest, k, l)
    } else {
        let i = law_profile_keeps_first_entries(rest, k);
        (i, listed.len() - 1)
    }
}

/// What a profile says: the first discrete adapter that was listed renders, else the first integrated
/// one; media work goes to the first integrated Intel adapter, else the first discrete one, else the
/// first of all; and each flag tells whether such an adapter was listed.
pub proof fn law_profile_follows_the_listed_adapters(
    listed: Vec<GraphicsAdapter>,
    profile: HardwareProfile,
    i: int,
)
    requires
        call_ensures(build_profile, (listed,), profile),
        0 <= i < listed@.len(),
    ensures
        ({
            let first_of = |class: AdapterClass|
                listed@[i].class == class && forall|j: int|
                    0 <= j < i ==> (#[trigger] listed@[j]).class != class;
            let none_of = |class: AdapterClass|
                forall|j: int|
                    0 <= j < listed@.len() ==> (#[trigger] listed@[j]).class != class;
            let intel = |j: int|
                listed@[j].class == AdapterClass::Integrated && listed@[j].vendor == 0x8086;
            &&& first_of(AdapterClass::Discrete) ==> (profile.render_adapter matches Some(name)
                && name@ == listed@[i].name@)
            &&& none_of(AdapterClass::Discrete) && first_of(AdapterClass::Integrated) ==> (
            profile.render_adapter matches Some(name) && name@ == listed@[i].name@)
            &&& none_of(AdapterClass::Discrete) && none_of(AdapterClass::Integrated)
                ==> profile.render_adapter is None
            &&& intel(i) && (forall|j: int| 0 <= j < i ==> !#[trigger] intel(j)) ==> (
            profile.media_adapter matches Some(name) && name@ == listed@[i].name@)
            &&& profile.media_adapter is Some
            &&& listed@[i].class == AdapterClass::Discrete ==> profile.has_discrete_gpu
            &&& listed@[i].class == AdapterClass::Integrated ==> profile.has_integrated_gpu
            &&& listed@[i].vendor == 0x10DE ==> profile.has_nvidia_gpu
            &&& intel(i) ==> profile.intel_quick_sync_candidate
            &&& none_of(AdapterClass::Discrete) ==> !profile.has_discrete_gpu
            &&& none_of(AdapterClass::Integrated) ==> !profile.has_integrated_gpu
                && !profile.intel_quick_sync_candidate
            &&& (forall|j: int| 0 <= j < listed@.len() ==> (#[trigger] listed@[j]).vendor
                != 0x10DE) ==> !profile.has_nvidia_gpu
        }),
{
    let models = adapter_models(listed@);
    assert(models.len() == listed@.len());
    assert forall|j: int| 0 <= j < models.len() implies (#[trigger] models[j]).class
        == listed@[j].class && models[j].vendor == listed@[j].vendor && models[j].name
        == listed@[j].name@ by {
        assert(models[j] == listed@[j]@);
    }
    assert(models[i] == listed@[i]@);
    let intel = |j: int|
        listed@[j].class == AdapterClass::Integrated && listed@[j].vendor == 0x8086;
    law_discrete_renders_before_integrated(models, i);
    law_media_work_prefers_quick_sync(models, i);
    law_presence_is_exact(models, AdapterClass::Discrete, i);
    law_presence_is_exact(models, AdapterClass::Integrated, i);
    if intel(i) && forall|j: int| 0 <= j < i ==> !#[trigger] intel(j) {
        assert forall|j: int| 0 <= j < i implies !((#[trigger] models[j]).class
            == AdapterClass::Integrated && models[j].vendor == 0x8086) by {
            assert(!intel(j));
        }
    }
    if forall|j: int|
        0 <= j < listed@.len() ==> (#[trigger] listed@[j]).class != AdapterClass::Discrete {
        assert forall|j: int| 0 <= j < models.len() implies (#[trigger] models[j]).class
            != AdapterClass::Discrete by {
            assert(listed@[j].class != AdapterClass::Discrete);
        }
    }
    if forall|j: int|
        0 <= j < listed@.len() ==> (#[trigger] listed@[j]).class != AdapterClass::Integrated {
        assert forall|j: int| 0 <= j < models.len() implies (#[trigger] models[j]).class
            != AdapterClass::Integrated by {
            assert(listed@[j].class != AdapterClass::Integrated);
        }
    }
    if forall|j: int| 0 <= j < i ==> (#[trigger] listed@[j]).class != AdapterClass::Discrete {
        assert forall|j: int| 0 <= j < i implies (#[trigger] models[j]).class
            != AdapterClass::Discrete by {
            assert(listed@[j].class != AdapterClass::Discrete);
        }
    }
    if forall|j: int| 0 <= j < i ==> (#[trigger] listed@[j]).class != AdapterClass::Integrated {
        assert forall|j: int| 0 <= j < i implies (#[trigger] models[j]).class
            != AdapterClass::Integrated by {
            assert(listed@[j].class != AdapterClass::Integrated);
        }
    }
    if forall|j: int| 0 <= j < listed@.len() ==> (#[trigger] listed@[j]).vendor != 0x10DE {
        assert forall|j: int| 0 <= j < models.len() implies (#[trigger] models[j]).vendor
            != 0x10DE by {
            assert(listed@[j].vendor != 0x10DE);
        }
    }
}

} // verus!

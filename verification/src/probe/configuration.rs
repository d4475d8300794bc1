//! What a measurement is configured with.
use vstd::prelude::*;

verus! {

/// The largest configuration file that is read.
pub const MAX_CONFIGURATION_BYTES: usize = 65_536;

/// The configuration of a measurement. Paths are their spellings.
#[derive(Debug)]
pub struct Configuration {
    pub schema_version: u32,
    pub run_id: String,
    pub source_paths: Vec<String>,
    pub report_path: String,
    pub adapter_class: String,
}

/// What the platform says of the path of the report.
#[derive(Clone, Copy, Debug, PartialEq, Eq, Structural)]
pub struct ReportFacts {
    pub is_absolute: bool,
    pub has_json_extension: bool,
    pub exists: bool,
}

/// What the platform says of the path of a source.
#[derive(Debug)]
pub struct SourceFacts {
    pub is_absolute: bool,
    pub is_file: bool,
    /// The canonical spelling, or why there is none.
    pub canonical: Result<String, String>,
}

/// What [`str::to_lowercase`] makes of a text.
pub uninterp spec fn lowercased(text: Seq<char>) -> Seq<char>;

/// Converts a text to lower case. This is [`str::to_lowercase`], which goes by Unicode alone, so
/// that one text always gives the same result; what it is is left unsaid.
#[verifier::external_body]
fn lowercase(text: &str) -> (lower: String)
    ensures
        lower@ == lowercased(text@),
{
    text.to_lowercase()
}

/// Whether a character may stand in a run identity.
pub open spec fn is_run_id_char(c: char) -> bool {
    ||| 'a' <= c <= 'z'
    ||| 'A' <= c <= 'Z'
    ||| '0' <= c <= '9'
    ||| c == '-'
}

/// Whether a text can identify a run.
pub open spec fn is_run_id(text: Seq<char>) -> bool {
    &&& 0 < text.len() <= 80
    &&& forall|i: int| 0 <= i < text.len() ==> is_run_id_char(#[trigger] text[i])
}

pub fn valid_run_id(text: &str) -> (valid: bool)
    ensures
        valid == is_run_id(text@),
{
    let length: usize = text.unicode_len();
    if length == 0 || length > 80 {
        return false;
    }
    let mut i: usize = 0;
    while i < length
        invariant
            length == text@.len(),
            i <= length,
            forall|j: int| 0 <= j < i ==> is_run_id_char(#[trigger] text@[j]),
        decreases length - i,
    {
        let c = text.get_char(i);
        let allowed = ('a' <= c && c <= 'z') || ('A' <= c && c <= 'Z') || ('0' <= c && c <= '9')
            || c == '-';
        if !allowed {
            assert(!is_run_id_char(text@[i as int]));
            return false;
        }
        i += 1;
    }
    true
}

/// The canonical spellings of the first `count` sources, in lower case.
pub open spec fn lower_spellings(sources: Seq<SourceFacts>, count: int) -> Seq<Seq<char>>
    decreases count,
{
    if count <= 0 {
        Seq::empty()
    } else {
        match sources[count - 1].canonical {
            Ok(path) => lower_spellings(sources, count - 1).push(lowercased(path@)),
            Err(error) => lower_spellings(sources, count - 1),
        }
    }
}

/// Why one of the first `count` sources is refused: the first fault.
pub open spec fn sources_error(sources: Seq<SourceFacts>, count: int) -> Option<Seq<char>>
    decreases count,
{
    if count <= 0 {
        None
    } else if sources_error(sources, count - 1) is Some {
        sources_error(sources, count - 1)
    } else if !sources[count - 1].is_absolute || !sources[count - 1].is_file {
        Some("all sources must be existing absolute file paths"@)
    } else {
        match sources[count - 1].canonical {
            Err(error) => Some(error@),
            Ok(path) => if lower_spellings(sources, count - 1).contains(lowercased(path@)) {
                Some("source files must be independent paths"@)
            } else {
                None
            },
        }
    }
}

/// Whether a text stands in a list.
pub fn lists_text(texts: &Vec<String>, text: &String) -> (listed: bool)
    ensures
        listed == text_models(texts@).contains(text@),
{
    let ghost models = text_models(texts@);
    let mut i: usize = 0;
    while i < texts.len()
        invariant
            i <= texts@.len(),
            models == text_models(texts@),
            forall|j: int| 0 <= j < i ==> models[j] != text@,
        decreases texts@.len() - i,
    {
        assert(models[i as int] == texts@[i as int]@);
        if texts[i] == *text {
            assert(models[i as int] == text@);
            return true;
        }
        i += 1;
    }
    false
}

/// The models of a list of texts.
pub open spec fn text_models(texts: Seq<String>) -> Seq<Seq<char>> {
    Seq::new(texts.len(), |i: int| texts[i]@)
}

impl Configuration {
    /// Why the configuration is refused: the first fault.
    pub open spec fn fault(&self, report: ReportFacts, sources: Seq<SourceFacts>) -> Option<
        Seq<char>,
    > {
        if self.schema_version != 1 || (self.source_paths@.len() != 1 && self.source_paths@.len()
            != 4) {
            Some("schema 1 requires one or four sources"@)
        } else if !is_run_id(self.run_id@) {
            Some("invalid run identity"@)
        } else if self.adapter_class@ != "IntegratedGpu"@ && self.adapter_class@
            != "DiscreteGpu"@ {
            Some("an explicit integrated/discrete adapter class is required"@)
        } else if !report.is_absolute || !report.has_json_extension {
            Some("report must be an absolute JSON path"@)
        } else if sources_error(sources, sources.len() as int) is Some {
            sources_error(sources, sources.len() as int)
        } else if report.exists {
            Some("report already exists; use a fresh run directory"@)
        } else {
            None
        }
    }

    /// Checks the configuration against what the platform says of its paths.
    pub fn validate(&self, report: &ReportFacts, sources: &Vec<SourceFacts>) -> (valid: Result<
        (),
        String,
    >)
        requires
            sources@.len() == self.source_paths@.len(),
        ensures
            match valid {
                Ok(()) => self.fault(*report, sources@) is None,
                Err(message) => self.fault(*report, sources@) == Some(message@),
            },
    {
        if self.schema_version != 1 || (self.source_paths.len() != 1 && self.source_paths.len()
            != 4) {
            return Err(String::from_str("schema 1 requires one or four sources"));
        }
        if !valid_run_id(self.run_id.as_str()) {
            return Err(String::from_str("invalid run identity"));
        }
        if self.adapter_class != String::from_str("IntegratedGpu") && self.adapter_class
            != String::from_str("DiscreteGpu") {
            return Err(
                String::from_str("an explicit integrated/discrete adapter class is required"),
            );
        }
        if !report.is_absolute || !report.has_json_extension {
            return Err(String::from_str("report must be an absolute JSON path"));
        }
        if let Some(message) = check_sources(sources) {
            return Err(message);
        }
        if report.exists {
            return Err(String::from_str("report already exists; use a fresh run directory"));
        }
        Ok(())
    }
}

/// Checks the sources one after the other.
pub fn check_sources(sources: &Vec<SourceFacts>) -> (error: Option<String>)
    ensures
        match error {
            Some(message) => sources_error(sources@, sources@.len() as int) == Some(message@),
            None => sources_error(sources@, sources@.len() as int) is None,
        },
{
    let mut seen: Vec<String> = Vec::new();
    let mut i: usize = 0;
    assert(text_models(seen@) =~= lower_spellings(sources@, 0));
    while i < sources.len()
        invariant
            i <= sources@.len(),
            sources_error(sources@, i as int) is None,
            text_models(seen@) == lower_spellings(sources@, i as int),
        decreases sources@.len() - i,
    {
        if !sources[i].is_absolute || !sources[i].is_file {
            proof {
                lemma_first_fault(sources@, i + 1, sources@.len() as int);
            }
            return Some(String::from_str("all sources must be existing absolute file paths"));
        }
        match &sources[i].canonical {
            Err(error) => {
                proof {
                    lemma_first_fault(sources@, i + 1, sources@.len() as int);
                }
                return Some(error.clone());
            },
            Ok(path) => {
                let lower = lowercase(path.as_str());
                if lists_text(&seen, &lower) {
                    proof {
                        lemma_first_fault(sources@, i + 1, sources@.len() as int);
                    }
                    return Some(String::from_str("source files must be independent paths"));
                }
                let ghost before = text_models(seen@);
                let ghost model = lower@;
                seen.push(lower);
                assert(text_models(seen@) =~= before.push(model));
            },
        }
        i += 1;
    }
    None
}

proof fn lemma_first_fault(sources: Seq<SourceFacts>, count: int, total: int)
    requires
        0 <= count <= total,
        sources_error(sources, count) is Some,
    ensures
        sources_error(sources, total) == sources_error(sources, count),
    decreases total - count,
{
    if count < total {
        lemma_first_fault(sources, count, total - 1);
    }
}

/// Sources that pass are independent files: no two have one canonical spelling, whatever the case.
pub proof fn law_valid_sources_are_independent(
    sources: Seq<SourceFacts>,
    count: int,
    i: int,
    j: int,
)
    requires
        0 <= i < j < count <= sources.len(),
        sources_error(sources, count) is None,
    ensures
        sources[i].canonical is Ok,
        sources[j].canonical is Ok,
        lowercased(sources[i].canonical->Ok_0@) != lowercased(sources[j].canonical->Ok_0@),
    decreases count,
{
    if j < count - 1 {
        law_valid_sources_are_independent(sources, count - 1, i, j);
    } else {
        lemma_lists(sources, j, i);
    }
}

proof fn lemma_lists(sources: Seq<SourceFacts>, count: int, i: int)
    requires
        0 <= i < count <= sources.len(),
        sources_error(sources, count) is None,
    ensures
        sources[i].canonical is Ok,
        lower_spellings(sources, count).contains(lowercased(sources[i].canonical->Ok_0@)),
    decreases count,
{
    let shorter = lower_spellings(sources, count - 1);
    let longer = lower_spellings(sources, count);
    if i < count - 1 {
        lemma_lists(sources, count - 1, i);
        let text = lowercased(sources[i].canonical->Ok_0@);
        let k = choose|k: int| 0 <= k < shorter.len() && shorter[k] == text;
        assert(longer[k] == text);
    } else {
        assert(longer[shorter.len() as int] == lowercased(sources[i].canonical->Ok_0@));
    }
}

/// A run is named by one to eighty ASCII letters, digits and hyphens, and by nothing else.
pub proof fn law_run_identities_are_plain(text: Seq<char>, c: char)
    ensures
        is_run_id_char(c) <==> {
            let code = c as u32;
            ||| 48 <= code <= 57
            ||| 65 <= code <= 90
            ||| 97 <= code <= 122
            ||| code == 45
        },
        is_run_id(text) <==> 1 <= text.len() <= 80 && forall|i: int|
            0 <= i < text.len() ==> is_run_id_char(#[trigger] text[i]),
{
}

/// Sources pass exactly where each is an existing absolute file with a canonical spelling that no
/// earlier one has, whatever the case.
pub proof fn law_sources_pass_exactly_when_independent(sources: Seq<SourceFacts>, count: int)
    requires
        0 <= count <= sources.len(),
        forall|i: int|
            0 <= i < count ==> (#[trigger] sources[i]).is_absolute && sources[i].is_file
                && sources[i].canonical is Ok,
        forall|i: int, j: int|
            0 <= i < j < count ==> lowercased((#[trigger] sources[i]).canonical->Ok_0@)
                != lowercased((#[trigger] sources[j]).canonical->Ok_0@),
    ensures
        sources_error(sources, count) is None,
        lower_spellings(sources, count).len() == count,
        forall|i: int|
            0 <= i < count ==> (#[trigger] lower_spellings(sources, count)[i]) == lowercased(
                sources[i].canonical->Ok_0@,
            ),
    decreases count,
{
    if count > 0 {
        law_sources_pass_exactly_when_independent(sources, count - 1);
        let before = lower_spellings(sources, count - 1);
        let last = sources[count - 1];
        let text = lowercased(last.canonical->Ok_0@);
        if before.contains(text) {
            let k = choose|k: int| 0 <= k < before.len() && before[k] == text;
            assert(before[k] == lowercased(sources[k].canonical->Ok_0@));
            assert(lowercased(sources[k].canonical->Ok_0@) != lowercased(
                sources[count - 1].canonical->Ok_0@,
            ));
        }
    }
}

/// A source is refused for its own fault, the first source with one decides, and its place comes before
/// its spelling.
pub proof fn law_first_faulty_source_decides(sources: Seq<SourceFacts>, i: int, total: int)
    requires
        0 <= i < total <= sources.len(),
        sources_error(sources, i) is None,
    ensures
        !sources[i].is_absolute || !sources[i].is_file ==> sources_error(sources, total) == Some(
            "all sources must be existing absolute file paths"@,
        ),
        sources[i].is_absolute && sources[i].is_file && sources[i].canonical is Err
            ==> sources_error(sources, total) == Some(sources[i].canonical->Err_0@),
        sources[i].is_absolute && sources[i].is_file && sources[i].canonical is Ok && (exists|
            k: int,
        |
            0 <= k < i && lowercased((#[trigger] sources[k]).canonical->Ok_0@) == lowercased(
                sources[i].canonical->Ok_0@,
            )) ==> sources_error(sources, total) == Some(
            "source files must be independent paths"@,
        ),
{
    if sources[i].is_absolute && sources[i].is_file && sources[i].canonical is Ok && exists|k: int|
        0 <= k < i && lowercased((#[trigger] sources[k]).canonical->Ok_0@) == lowercased(
            sources[i].canonical->Ok_0@,
        ) {
        let k = choose|k: int|
            0 <= k < i && lowercased((#[trigger] sources[k]).canonical->Ok_0@) == lowercased(
                sources[i].canonical->Ok_0@,
            );
        lemma_lists(sources, i, k);
    }
    if sources_error(sources, i + 1) is Some {
        lemma_first_fault(sources, i + 1, total);
    }
}

/// A configuration is accepted exactly where nothing about it is wrong.
pub proof fn law_configuration_is_accepted_exactly_when_sound(
    configuration: Configuration,
    report: ReportFacts,
    sources: Seq<SourceFacts>,
)
    ensures
        configuration.fault(report, sources) is None <==> {
            &&& configuration.schema_version == 1
            &&& configuration.source_paths@.len() == 1 || configuration.source_paths@.len() == 4
            &&& is_run_id(configuration.run_id@)
            &&& configuration.adapter_class@ == "IntegratedGpu"@ || configuration.adapter_class@
                == "DiscreteGpu"@
            &&& report.is_absolute
            &&& report.has_json_extension
            &&& !report.exists
            &&& sources_error(sources, sources.len() as int) is None
        },
{
}

/// What is said of a refused configuration is its first fault.
pub proof fn law_configuration_names_its_first_fault(
    configuration: Configuration,
    report: ReportFacts,
    sources: Seq<SourceFacts>,
)
    ensures
        ({
            let fault = configuration.fault(report, sources);
            let count = configuration.source_paths@.len();
            let schema = configuration.schema_version == 1 && (count == 1 || count == 4);
            let named = schema && is_run_id(configuration.run_id@);
            let class = named && (configuration.adapter_class@ == "IntegratedGpu"@
                || configuration.adapter_class@ == "DiscreteGpu"@);
            let placed = class && report.is_absolute && report.has_json_extension;
            &&& !schema ==> fault == Some("schema 1 requires one or four sources"@)
            &&& schema && !named ==> fault == Some("invalid run identity"@)
            &&& named && !class ==> fault == Some(
                "an explicit integrated/discrete adapter class is required"@,
            )
            &&& class && !placed ==> fault == Some("report must be an absolute JSON path"@)
            &&& placed && sources_error(sources, sources.len() as int) is Some ==> fault
                == sources_error(sources, sources.len() as int)
            &&& placed && sources_error(sources, sources.len() as int) is None && report.exists
                ==> fault == Some("report already exists; use a fresh run directory"@)
        }),
{
}

} // verus!

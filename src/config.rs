use vstd::prelude::*;
use vstd::string::StringSliceAdditionalSpecFns;
use yaml_rust::{Yaml, YamlLoader};

verus! {

/// Default number of iterations each worker runs.
pub const NITERATIONS: i64 = 1;

/// Default ramp-up window, in seconds.
pub const NRAMPUP: i64 = 0;

/// What a configuration document holds under one key, as far as the scheduler reads it.
#[derive(Clone, Debug, PartialEq, Eq)]
pub enum FieldValue {
    /// An integer scalar.
    Int(i64),
    /// A string scalar.
    Text(String),
    /// Anything else, a missing key included.
    Other,
}

/// The values one YAML document holds under the keys the scheduler reads.
#[derive(Clone, Debug, PartialEq, Eq)]
pub struct DocFields {
    pub iterations: FieldValue,
    pub concurrency: FieldValue,
    pub rampup: FieldValue,
    pub base: FieldValue,
}

/// The fields of each document that a YAML text parses into, or `None`
/// when the text is no YAML.
pub uninterp spec fn doc_fields_of(text: Seq<char>) -> Option<Seq<DocFields>>;

/// Longest line, in bytes, of a configuration text the parser is given.
pub const MAX_LINE_BYTES: usize = 256;

/// Longest configuration text, in bytes, the parser is given.
pub const MAX_TEXT_BYTES: usize = 1048576;

/// The number of bytes since the last line feed among the first `n` bytes.
pub open spec fn line_run(bytes: Seq<u8>, n: int) -> int
    decreases n,
{
    if n <= 0 {
        0
    } else if bytes[n - 1] == 10 {
        0
    } else {
        line_run(bytes, n - 1) + 1
    }
}

/// The parser recurses once per nesting level, and a block collection nests
/// only by deeper indentation, flow collections at most 255 deep; aliases
/// copy whole nodes and could nest without bound. So short lines, a bounded
/// length and no alias (`*`) keep the parse within a small stack.
pub open spec fn within_parse_limits(bytes: Seq<u8>) -> bool {
    &&& bytes.len() <= MAX_TEXT_BYTES
    &&& forall|n: int| 0 <= n <= bytes.len() ==> #[trigger] line_run(bytes, n) < MAX_LINE_BYTES
    &&& forall|i: int| 0 <= i < bytes.len() ==> #[trigger] bytes[i] != 42
}

/// Whether the text is within the limits the parser is given texts under.
pub fn text_within_parse_limits(text: &str) -> (r: bool)
    ensures
        r == within_parse_limits(text.spec_bytes()),
{
    let bytes = text.as_bytes();
    if bytes.len() > MAX_TEXT_BYTES {
        return false;
    }
    let mut run: usize = 0;
    let mut i: usize = 0;
    while i < bytes.len()
        invariant
            bytes@ == text.spec_bytes(),
            i <= bytes@.len(),
            run == line_run(bytes@, i as int),
            run < MAX_LINE_BYTES,
            forall|n: int| 0 <= n <= i ==> #[trigger] line_run(bytes@, n) < MAX_LINE_BYTES,
            forall|k: int| 0 <= k < i ==> #[trigger] bytes@[k] != 42,
        decreases bytes@.len() - i,
    {
        let b = bytes[i];
        if b == 42 {
            return false;
        }
        if b == 10 {
            run = 0;
        } else {
            run = run + 1;
            if run >= MAX_LINE_BYTES {
                assert(line_run(bytes@, i + 1) >= MAX_LINE_BYTES);
                return false;
            }
        }
        i = i + 1;
    }
    true
}

/// Relies on yaml_rust::YamlLoader::load_from_str, which parses the text into its
/// documents, and on `Index<&str>` for `Yaml`, which gives the value under a key of
/// a mapping and `BadValue` otherwise. Both depend on the text alone.
#[verifier::external_body]
fn doc_fields(text: &str) -> (r: Option<Vec<DocFields>>)
    requires
        within_parse_limits(text.spec_bytes()),
    ensures
        r matches Some(docs) ==> doc_fields_of(text@) == Some(docs@),
        r is None ==> doc_fields_of(text@) is None,
{
    let conv = |v: &Yaml| match v {
        Yaml::Integer(i) => FieldValue::Int(*i),
        Yaml::String(s) => FieldValue::Text(s.clone()),
        _ => FieldValue::Other,
    };
    let docs = YamlLoader::load_from_str(text).ok()?;
    Some(docs.iter().map(|d| DocFields {
        iterations: conv(&d["iterations"]),
        concurrency: conv(&d["concurrency"]),
        rampup: conv(&d["rampup"]),
        base: conv(&d["base"]),
    }).collect())
}

/// Why a setting was replaced by its default.
#[derive(Clone, Copy, Debug, PartialEq, Eq)]
pub enum WarningKind {
    /// An integer below the setting's minimum.
    OutOfRange,
    /// A string where an integer was expected.
    NotAnInteger,
}

/// A setting that was replaced by its default.
#[derive(Clone, Debug, PartialEq, Eq)]
pub struct ConfigWarning {
    pub field: String,
    pub kind: WarningKind,
}

/// A configuration that must not be run.
#[derive(Clone, Debug, PartialEq, Eq)]
pub enum ConfigError {
    /// The text is no YAML, or holds no document.
    Unreadable,
    /// The text has a line too long, is too long, or uses an alias.
    OutsideParseLimits,
    /// `base` is absent, not a string, or empty.
    MissingBase,
    /// More concurrent workers than iterations.
    ConcurrencyAboveIterations { concurrency: i64, iterations: i64 },
}

/// Validated run parameters, shared read-only by every worker.
#[derive(Clone, Debug)]
pub struct Config {
    pub base: String,
    pub concurrency: i64,
    pub iterations: i64,
    pub relaxed_interpolations: bool,
    pub no_check_certificate: bool,
    pub rampup: i64,
    pub quiet: bool,
    pub nanosec: bool,
}

/// The value a setting takes: an integer at or above `minimum`, else `default`.
pub open spec fn setting_value(field: FieldValue, default: i64, minimum: i64) -> i64 {
    match field {
        FieldValue::Int(v) => if v < minimum { default } else { v },
        _ => default,
    }
}

/// The warning a setting raises, if any.
pub open spec fn setting_warning(field: FieldValue, minimum: i64) -> Option<WarningKind> {
    match field {
        FieldValue::Int(v) => if v < minimum { Some(WarningKind::OutOfRange) } else { None },
        FieldValue::Text(_) => Some(WarningKind::NotAnInteger),
        FieldValue::Other => None,
    }
}

/// The iterations a document asks for, after defaulting.
pub open spec fn iterations_of(iterations: FieldValue) -> i64 {
    setting_value(iterations, NITERATIONS, 1)
}

/// The concurrency a document asks for, after defaulting to the iterations.
pub open spec fn concurrency_of(iterations: FieldValue, concurrency: FieldValue) -> i64 {
    setting_value(concurrency, iterations_of(iterations), 1)
}

/// The ramp-up a document asks for, after defaulting.
pub open spec fn rampup_of(rampup: FieldValue) -> i64 {
    setting_value(rampup, NRAMPUP, 0)
}

/// The base address a document gives, if it gives a usable one.
pub open spec fn base_of(base: FieldValue) -> Option<Seq<char>> {
    match base {
        FieldValue::Text(s) => if s@.len() > 0 { Some(s@) } else { None },
        _ => None,
    }
}

/// The error a document's fields raise, if any: a missing base comes first.
pub open spec fn fields_error(
    iterations: FieldValue,
    concurrency: FieldValue,
    base: FieldValue,
) -> Option<ConfigError> {
    if base_of(base) is None {
        Some(ConfigError::MissingBase)
    } else if concurrency_of(iterations, concurrency) > iterations_of(iterations) {
        Some(
            ConfigError::ConcurrencyAboveIterations {
                concurrency: concurrency_of(iterations, concurrency),
                iterations: iterations_of(iterations),
            },
        )
    } else {
        None
    }
}

/// The warnings that a document's numeric fields raise, in the order
/// iterations, concurrency, rampup.
pub open spec fn warnings_of(
    iterations: FieldValue,
    concurrency: FieldValue,
    rampup: FieldValue,
) -> Seq<(Seq<char>, WarningKind)> {
    warning_entry("iterations"@, setting_warning(iterations, 1))
        + warning_entry("concurrency"@, setting_warning(concurrency, 1))
        + warning_entry("rampup"@, setting_warning(rampup, 0))
}

pub open spec fn warning_entry(name: Seq<char>, w: Option<WarningKind>) -> Seq<(Seq<char>, WarningKind)> {
    match w {
        Some(k) => seq![(name, k)],
        None => Seq::empty(),
    }
}

pub open spec fn warnings_view(ws: Seq<ConfigWarning>) -> Seq<(Seq<char>, WarningKind)> {
    ws.map_values(|w: ConfigWarning| (w.field@, w.kind))
}

/// After defaulting, a configuration that is accepted never has more
/// concurrency than iterations, and one that would is refused.
pub proof fn lemma_concurrency_within_iterations(
    r: Result<(Config, Vec<ConfigWarning>), ConfigError>,
    d: DocFields,
    relaxed_interpolations: bool,
    no_check_certificate: bool,
    quiet: bool,
    nanosec: bool,
)
    requires
        reads_fields(r, d, relaxed_interpolations, no_check_certificate, quiet, nanosec),
    ensures
        r matches Ok((c, _)) ==> 1 <= c.concurrency <= c.iterations,
        concurrency_of(d.iterations, d.concurrency) > iterations_of(d.iterations) ==> r is Err,
{
}

/// A negative `iterations`, `concurrency` or `rampup` takes that setting's
/// default and is never itself the cause of an error: with a base address,
/// the document is read as if the field were absent.
pub proof fn lemma_negative_setting_takes_default(
    v: i64,
    r: Result<(Config, Vec<ConfigWarning>), ConfigError>,
    d: DocFields,
    relaxed_interpolations: bool,
    no_check_certificate: bool,
    quiet: bool,
    nanosec: bool,
)
    requires
        v < 0,
        base_of(d.base) is Some,
        reads_fields(r, d, relaxed_interpolations, no_check_certificate, quiet, nanosec),
    ensures
        d.iterations == FieldValue::Int(v) ==> iterations_of(d.iterations) == NITERATIONS
            && fields_error(d.iterations, d.concurrency, d.base) == fields_error(FieldValue::Other, d.concurrency, d.base),
        d.iterations == FieldValue::Int(v) && concurrency_of(d.iterations, d.concurrency) <= NITERATIONS
            ==> (r matches Ok((c, _)) && c.iterations == NITERATIONS),
        d.concurrency == FieldValue::Int(v) ==> (r matches Ok((c, _)) && c.concurrency == c.iterations),
        d.rampup == FieldValue::Int(v) && concurrency_of(d.iterations, d.concurrency) <= iterations_of(d.iterations)
            ==> (r matches Ok((c, _)) && c.rampup == NRAMPUP),
{
}

/// A document without a usable base address is refused before anything
/// else is looked at, so no worker can be built from it.
pub proof fn lemma_missing_base_is_fatal(iterations: FieldValue, concurrency: FieldValue, base: FieldValue)
    requires
        base_of(base) is None,
    ensures
        fields_error(iterations, concurrency, base) == Some(ConfigError::MissingBase),
{
}

/// The documents as a sequence, when the text parsed.
pub open spec fn docs_view(docs: Option<Vec<DocFields>>) -> Option<Seq<DocFields>> {
    match docs {
        Some(v) => Some(v@),
        None => None,
    }
}

/// The first document of a text that parsed, if it holds any.
pub open spec fn first_document(docs: Option<Seq<DocFields>>) -> Option<DocFields> {
    match docs {
        Some(s) => if s.len() > 0 { Some(s[0]) } else { None },
        None => None,
    }
}

/// `r` is what a document with fields `d` gives: the error that its fields
/// raise if any, else the configuration and warnings they give, with the run flags.
pub open spec fn reads_fields(
    r: Result<(Config, Vec<ConfigWarning>), ConfigError>,
    d: DocFields,
    relaxed_interpolations: bool,
    no_check_certificate: bool,
    quiet: bool,
    nanosec: bool,
) -> bool {
    &&& r is Err <==> fields_error(d.iterations, d.concurrency, d.base) is Some
    &&& r matches Err(e) ==> fields_error(d.iterations, d.concurrency, d.base) == Some(e)
    &&& r matches Ok((c, ws)) ==> {
        &&& c.read_from(ws@, d.iterations, d.concurrency, d.rampup, d.base)
        &&& c.relaxed_interpolations == relaxed_interpolations
        &&& c.no_check_certificate == no_check_certificate
        &&& c.quiet == quiet
        &&& c.nanosec == nanosec
        &&& c.wf()
    }
}

impl Config {
    /// The settings, base and warnings are those that a document with these
    /// fields gives.
    pub open spec fn read_from(
        &self,
        ws: Seq<ConfigWarning>,
        iterations: FieldValue,
        concurrency: FieldValue,
        rampup: FieldValue,
        base: FieldValue,
    ) -> bool {
        &&& self.iterations == iterations_of(iterations)
        &&& self.concurrency == concurrency_of(iterations, concurrency)
        &&& self.rampup == rampup_of(rampup)
        &&& Some(self.base@) == base_of(base)
        &&& warnings_view(ws) == warnings_of(iterations, concurrency, rampup)
    }

    /// Every worker may be built from this configuration.
    pub open spec fn wf(&self) -> bool {
        &&& self.iterations >= 1
        &&& 1 <= self.concurrency <= self.iterations
        &&& self.rampup >= 0
        &&& self.base@.len() > 0
    }

    /// Reads `iterations`, `concurrency`, `rampup` and `base` from the first
    /// document of a YAML text within the parse limits. A setting that is invalid is replaced by its
    /// default and reported as a warning; text that is no YAML or holds no
    /// document, a missing base, or more concurrency than iterations is an error.
    pub fn new(
        text: &str,
        relaxed_interpolations: bool,
        no_check_certificate: bool,
        quiet: bool,
        nanosec: bool,
    ) -> (r: Result<(Config, Vec<ConfigWarning>), ConfigError>)
        ensures
            !within_parse_limits(text.spec_bytes()) ==> r == Err::<
                (Config, Vec<ConfigWarning>),
                ConfigError,
            >(ConfigError::OutsideParseLimits),
            within_parse_limits(text.spec_bytes()) && first_document(doc_fields_of(text@)) is None ==> r
                == Err::<(Config, Vec<ConfigWarning>), ConfigError>(ConfigError::Unreadable),
            within_parse_limits(text.spec_bytes()) ==> (first_document(doc_fields_of(text@)) matches Some(d)
                ==> reads_fields(r, d, relaxed_interpolations, no_check_certificate, quiet, nanosec)),
    {
        if !text_within_parse_limits(text) {
            return Err(ConfigError::OutsideParseLimits);
        }
        let docs = doc_fields(text);
        Config::from_documents(&docs, relaxed_interpolations, no_check_certificate, quiet, nanosec)
    }

    /// Builds a configuration from the first of the parsed documents; `None`
    /// stands for text that is no YAML.
    pub fn from_documents(
        docs: &Option<Vec<DocFields>>,
        relaxed_interpolations: bool,
        no_check_certificate: bool,
        quiet: bool,
        nanosec: bool,
    ) -> (r: Result<(Config, Vec<ConfigWarning>), ConfigError>)
        ensures
            first_document(docs_view(*docs)) is None ==> r == Err::<
                (Config, Vec<ConfigWarning>),
                ConfigError,
            >(ConfigError::Unreadable),
            first_document(docs_view(*docs)) matches Some(d) ==> reads_fields(
                r,
                d,
                relaxed_interpolations,
                no_check_certificate,
                quiet,
                nanosec,
            ),
    {
        match docs {
            Some(list) => {
                if list.len() == 0 {
                    Err(ConfigError::Unreadable)
                } else {
                    let d = &list[0];
                    Config::from_fields(
                        &d.iterations,
                        &d.concurrency,
                        &d.rampup,
                        &d.base,
                        relaxed_interpolations,
                        no_check_certificate,
                        quiet,
                        nanosec,
                    )
                }
            },
            None => Err(ConfigError::Unreadable),
        }
    }

    /// Builds a configuration from the values a document holds under
    /// `iterations`, `concurrency`, `rampup` and `base`.
    pub fn from_fields(
        iterations: &FieldValue,
        concurrency: &FieldValue,
        rampup: &FieldValue,
        base: &FieldValue,
        relaxed_interpolations: bool,
        no_check_certificate: bool,
        quiet: bool,
        nanosec: bool,
    ) -> (r: Result<(Config, Vec<ConfigWarning>), ConfigError>)
        ensures
            reads_fields(
                r,
                (DocFields { iterations: *iterations, concurrency: *concurrency, rampup: *rampup, base: *base }),
                relaxed_interpolations,
                no_check_certificate,
                quiet,
                nanosec,
            ),
    {
        let (iterations, w_iterations) = read_i64_configuration(iterations, NITERATIONS, 1);
        let (concurrency, w_concurrency) = read_i64_configuration(concurrency, iterations, 1);
        let (rampup, w_rampup) = read_i64_configuration(rampup, NRAMPUP, 0);
        let base = match base {
            FieldValue::Text(s) => {
                if s.as_str().is_empty() {
                    return Err(ConfigError::MissingBase);
                }
                s.clone()
            },
            _ => {
                return Err(ConfigError::MissingBase);
            },
        };
        if concurrency > iterations {
            return Err(ConfigError::ConcurrencyAboveIterations { concurrency, iterations });
        }
        let mut warnings: Vec<ConfigWarning> = Vec::new();
        if let Some(kind) = w_iterations {
            warnings.push(ConfigWarning { field: String::from_str("iterations"), kind });
        }
        assert(warnings_view(warnings@) =~= warning_entry(
            "iterations"@,
            w_iterations,
        ));
        let ghost before = warnings@;
        if let Some(kind) = w_concurrency {
            warnings.push(ConfigWarning { field: String::from_str("concurrency"), kind });
        }
        assert(warnings_view(warnings@) =~= warnings_view(before) + warning_entry(
            "concurrency"@,
            w_concurrency,
        ));
        let ghost before = warnings@;
        if let Some(kind) = w_rampup {
            warnings.push(ConfigWarning { field: String::from_str("rampup"), kind });
        }
        assert(warnings_view(warnings@) =~= warnings_view(before) + warning_entry(
            "rampup"@,
            w_rampup,
        ));
        let config = Config {
            base,
            concurrency,
            iterations,
            relaxed_interpolations,
            no_check_certificate,
            rampup,
            quiet,
            nanosec,
        };
        Ok((config, warnings))
    }
}

/// The value of one integer setting: the field's integer if it is at least
/// `minimum`, else `default`, with the warning that the replacement raises.
pub fn read_i64_configuration(field: &FieldValue, default: i64, minimum: i64) -> (r: (
    i64,
    Option<WarningKind>,
))
    ensures
        r.0 == setting_value(*field, default, minimum),
        r.1 == setting_warning(*field, minimum),
{
    match field {
        FieldValue::Int(v) => {
            if *v < minimum {
                (default, Some(WarningKind::OutOfRange))
            } else {
                (*v, None)
            }
        },
        FieldValue::Text(_) => (default, Some(WarningKind::NotAnInteger)),
        FieldValue::Other => (default, None),
    }
}

} // verus!

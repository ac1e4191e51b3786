//! Finding identifiers between literal markers in diagnostic text.
use vstd::prelude::*;
use vstd::string::StringSliceAdditionalSpecFns;

verus! {

/// `pat` occurs in `text` starting at byte offset `i`.
pub open spec fn occurs_at(text: Seq<u8>, pat: Seq<u8>, i: int) -> bool {
    &&& 0 <= i
    &&& i + pat.len() <= text.len()
    &&& text.subrange(i, i + pat.len()) == pat
}

/// The first offset at or after `from` where `pat` occurs in `text`.
pub open spec fn first_match(text: Seq<u8>, pat: Seq<u8>, from: int) -> Option<int>
    decreases text.len() + 1 - from,
{
    if from < 0 || from + pat.len() > text.len() {
        None
    } else if occurs_at(text, pat, from) {
        Some(from)
    } else {
        first_match(text, pat, from + 1)
    }
}

/// `first_match` finds the earliest occurrence at or after `from`, and
/// finds nothing exactly when there is none.
pub proof fn lemma_first_match(text: Seq<u8>, pat: Seq<u8>, from: int)
    requires
        0 <= from,
    ensures
        match first_match(text, pat, from) {
            Some(i) => from <= i && occurs_at(text, pat, i) && forall|j: int|
                from <= j < i ==> !occurs_at(text, pat, j),
            None => forall|j: int| from <= j ==> !occurs_at(text, pat, j),
        },
    decreases text.len() + 1 - from,
{
    if from + pat.len() > text.len() {
    } else if occurs_at(text, pat, from) {
    } else {
        lemma_first_match(text, pat, from + 1);
    }
}

/// Byte offset of the first occurrence of `pat` in `text` at or after `from`.
pub fn find_from(text: &[u8], pat: &[u8], from: usize) -> (r: Option<usize>)
    ensures
        match r {
            Some(i) => first_match(text@, pat@, from as int) == Some(i as int) && i + pat@.len()
                <= text@.len(),
            None => first_match(text@, pat@, from as int) is None,
        },
{
    let n = text.len();
    let m = pat.len();
    if m > n {
        return None;
    }
    let mut i: usize = from;
    while i <= n - m
        invariant
            n == text@.len(),
            m == pat@.len(),
            m <= n,
            from <= i,
            first_match(text@, pat@, from as int) == first_match(text@, pat@, i as int),
        decreases n - i,
    {
        let mut k: usize = 0;
        let mut same = true;
        while k < m
            invariant
                n == text@.len(),
                m == pat@.len(),
                i + m <= n,
                k <= m,
                same == forall|t: int| 0 <= t < k ==> text@[i + t] == pat@[t],
            decreases m - k,
        {
            if text[i + k] != pat[k] {
                same = false;
            }
            k = k + 1;
        }
        if same {
            assert(text@.subrange(i as int, i + m) =~= pat@);
            return Some(i);
        }
        assert(!occurs_at(text@, pat@, i as int)) by {
            if occurs_at(text@, pat@, i as int) {
                assert forall|t: int| 0 <= t < m implies text@[i + t] == pat@[t] by {
                    assert(text@.subrange(i as int, i + m)[t] == text@[i + t]);
                }
            }
        }
        i = i + 1;
    }
    None
}

/// Opens a config label in the upload tool's diagnostics.
pub const SERVICE_CONFIGURATION: &'static str = "Service Configuration [";

/// Closes a config label and opens a service label.
pub const UPLOADED_FOR_SERVICE: &'static str = "] uploaded for service [";

/// Closes a service label; it belongs to the label.
pub const RUN_APP: &'static str = ".run.app]";

/// Opens a build image reference, followed by the project id.
pub const IMAGE_REGISTRY: &'static str = "gcr.io/";

/// The literal markers that the extractors look for.
#[derive(Clone, Copy, Debug, PartialEq, Eq, Structural)]
pub enum Marker {
    ServiceConfiguration,
    UploadedForService,
    RunApp,
}

/// Why a label could not be taken from diagnostic text.
#[derive(Clone, Copy, Debug, PartialEq, Eq, Structural)]
pub enum ExtractionError {
    /// A marker that bounds a label does not occur where it must.
    MarkerNotFound(Marker),
    /// The image reference's registry prefix or config label does not occur.
    ReferenceNotFound,
    /// Both markers occur, with nothing between them.
    EmptyLabel,
}

pub open spec fn marker_bytes(m: Marker) -> Seq<u8> {
    match m {
        Marker::ServiceConfiguration => SERVICE_CONFIGURATION.spec_bytes(),
        Marker::UploadedForService => UPLOADED_FOR_SERVICE.spec_bytes(),
        Marker::RunApp => RUN_APP.spec_bytes(),
    }
}

/// The bytes between the first `start` marker and the first `end` marker
/// that follows it; when `keep_end`, the `end` marker is part of the label.
pub open spec fn between(text: Seq<u8>, start: Marker, end: Marker, keep_end: bool) -> Result<
    Seq<u8>,
    ExtractionError,
> {
    match first_match(text, marker_bytes(start), 0) {
        None => Err(ExtractionError::MarkerNotFound(start)),
        Some(s) => {
            let a = s + marker_bytes(start).len();
            match first_match(text, marker_bytes(end), a) {
                None => Err(ExtractionError::MarkerNotFound(end)),
                Some(e) => {
                    let b = if keep_end {
                        e + marker_bytes(end).len()
                    } else {
                        e
                    };
                    if a == b {
                        Err(ExtractionError::EmptyLabel)
                    } else {
                        Ok(text.subrange(a, b))
                    }
                },
            }
        },
    }
}

/// The config label of an upload tool's diagnostics.
pub open spec fn config_label_of(text: Seq<u8>) -> Result<Seq<u8>, ExtractionError> {
    between(text, Marker::ServiceConfiguration, Marker::UploadedForService, false)
}

/// The service label of an upload tool's diagnostics, `.run.app]` included.
pub open spec fn service_label_of(text: Seq<u8>) -> Result<Seq<u8>, ExtractionError> {
    between(text, Marker::UploadedForService, Marker::RunApp, true)
}

/// The image reference of a build's diagnostics: from `gcr.io/<project>`
/// through the first occurrence of the config label after it.
pub open spec fn build_image_of(text: Seq<u8>, config_label: Seq<u8>, project: Seq<u8>) -> Result<
    Seq<u8>,
    ExtractionError,
> {
    let prefix = IMAGE_REGISTRY.spec_bytes() + project;
    match first_match(text, prefix, 0) {
        None => Err(ExtractionError::ReferenceNotFound),
        Some(s) => match first_match(text, config_label, s + prefix.len()) {
            None => Err(ExtractionError::ReferenceNotFound),
            Some(e) => Ok(text.subrange(s, e + config_label.len())),
        },
    }
}

/// `r` is the outcome `o`, with a borrowed label.
pub open spec fn same_outcome(r: Result<&[u8], ExtractionError>, o: Result<Seq<u8>, ExtractionError>) -> bool {
    match r {
        Ok(v) => o == Ok::<Seq<u8>, ExtractionError>(v@),
        Err(e) => o == Err::<Seq<u8>, ExtractionError>(e),
    }
}

fn marker_slice(m: Marker) -> (r: &'static [u8])
    ensures
        r@ == marker_bytes(m),
{
    match m {
        Marker::ServiceConfiguration => SERVICE_CONFIGURATION.as_bytes(),
        Marker::UploadedForService => UPLOADED_FOR_SERVICE.as_bytes(),
        Marker::RunApp => RUN_APP.as_bytes(),
    }
}

fn extract_between<'a>(text: &'a [u8], start: Marker, end: Marker, keep_end: bool) -> (r: Result<
    &'a [u8],
    ExtractionError,
>)
    ensures
        same_outcome(r, between(text@, start, end, keep_end)),
{
    let n = text.len();
    proof {
        // every offset below is bounded by the length of a slice
        assert(n == text@.len());
    }
    let sm = marker_slice(start);
    let em = marker_slice(end);
    match find_from(text, sm, 0) {
        None => Err(ExtractionError::MarkerNotFound(start)),
        Some(s) => {
            proof {
                lemma_first_match(text@, sm@, 0);
            }
            let a = s + sm.len();
            match find_from(text, em, a) {
                None => Err(ExtractionError::MarkerNotFound(end)),
                Some(e) => {
                    proof {
                        lemma_first_match(text@, em@, a as int);
                    }
                    let b = if keep_end {
                        e + em.len()
                    } else {
                        e
                    };
                    if a == b {
                        Err(ExtractionError::EmptyLabel)
                    } else {
                        Ok(&text[a..b])
                    }
                },
            }
        },
    }
}

/// The config label: the text between `Service Configuration [` and the
/// first `] uploaded for service [` after it.
pub fn extract_config_label(text: &[u8]) -> (r: Result<&[u8], ExtractionError>)
    ensures
        same_outcome(r, config_label_of(text@)),
{
    extract_between(text, Marker::ServiceConfiguration, Marker::UploadedForService, false)
}

/// The service label: the text after `] uploaded for service [` through the
/// first `.run.app]` after it, that suffix included.
pub fn extract_service_label(text: &[u8]) -> (r: Result<&[u8], ExtractionError>)
    ensures
        same_outcome(r, service_label_of(text@)),
{
    extract_between(text, Marker::UploadedForService, Marker::RunApp, true)
}

/// The build image reference: from `gcr.io/<project_id>` through the end of
/// the first occurrence of `config_label` after that prefix.
pub fn extract_build_image<'a>(text: &'a [u8], config_label: &[u8], project_id: &[u8]) -> (r: Result<
    &'a [u8],
    ExtractionError,
>)
    ensures
        same_outcome(r, build_image_of(text@, config_label@, project_id@)),
{
    let n = text.len();
    proof {
        // every offset below is bounded by the length of a slice
        assert(n == text@.len());
    }
    let registry = IMAGE_REGISTRY.as_bytes();
    let mut prefix: Vec<u8> = Vec::new();
    let mut k: usize = 0;
    while k < registry.len()
        invariant
            k <= registry@.len(),
            prefix@ == registry@.subrange(0, k as int),
        decreases registry@.len() - k,
    {
        prefix.push(registry[k]);
        k = k + 1;
    }
    let mut k: usize = 0;
    while k < project_id.len()
        invariant
            k <= project_id@.len(),
            prefix@ == registry@ + project_id@.subrange(0, k as int),
        decreases project_id@.len() - k,
    {
        prefix.push(project_id[k]);
        k = k + 1;
    }
    assert(prefix@ =~= IMAGE_REGISTRY.spec_bytes() + project_id@);
    match find_from(text, prefix.as_slice(), 0) {
        None => Err(ExtractionError::ReferenceNotFound),
        Some(s) => {
            proof {
                lemma_first_match(text@, prefix@, 0);
            }
            match find_from(text, config_label, s + prefix.len()) {
                None => Err(ExtractionError::ReferenceNotFound),
                Some(e) => {
                    proof {
                        lemma_first_match(text@, config_label@, s + prefix@.len());
                    }
                    Ok(&text[s..e + config_label.len()])
                },
            }
        },
    }
}

/// Where the start marker first occurs at `s`, and the end marker first
/// occurs after it at `e`, with bytes between, the label is exactly the
/// bytes between the two markers (through the end marker when it is kept).
pub proof fn lemma_between_exact(
    text: Seq<u8>,
    start: Marker,
    end: Marker,
    keep_end: bool,
    s: int,
    e: int,
)
    requires
        occurs_at(text, marker_bytes(start), s),
        forall|j: int| 0 <= j < s ==> !occurs_at(text, marker_bytes(start), j),
        occurs_at(text, marker_bytes(end), e),
        s + marker_bytes(start).len() <= e,
        forall|j: int|
            s + marker_bytes(start).len() <= j < e ==> !occurs_at(text, marker_bytes(end), j),
        s + marker_bytes(start).len() < if keep_end {
            e + marker_bytes(end).len()
        } else {
            e
        },
    ensures
        between(text, start, end, keep_end) == Ok::<Seq<u8>, ExtractionError>(
            text.subrange(
                s + marker_bytes(start).len(),
                if keep_end {
                    e + marker_bytes(end).len()
                } else {
                    e
                },
            ),
        ),
{
    lemma_first_match(text, marker_bytes(start), 0);
    let a = s + marker_bytes(start).len();
    lemma_first_match(text, marker_bytes(end), a);
}

/// The config label between its markers, byte for byte.
pub proof fn lemma_config_label_exact(text: Seq<u8>, s: int, e: int)
    requires
        occurs_at(text, marker_bytes(Marker::ServiceConfiguration), s),
        forall|j: int|
            0 <= j < s ==> !occurs_at(text, marker_bytes(Marker::ServiceConfiguration), j),
        occurs_at(text, marker_bytes(Marker::UploadedForService), e),
        s + marker_bytes(Marker::ServiceConfiguration).len() < e,
        forall|j: int|
            s + marker_bytes(Marker::ServiceConfiguration).len() <= j < e ==> !occurs_at(
                text,
                marker_bytes(Marker::UploadedForService),
                j,
            ),
    ensures
        config_label_of(text) == Ok::<Seq<u8>, ExtractionError>(
            text.subrange(s + marker_bytes(Marker::ServiceConfiguration).len(), e),
        ),
{
    lemma_between_exact(text, Marker::ServiceConfiguration, Marker::UploadedForService, false, s, e);
}

/// The service label runs from its opening marker through the closing
/// `.run.app]`, byte for byte.
pub proof fn lemma_service_label_exact(text: Seq<u8>, s: int, e: int)
    requires
        occurs_at(text, marker_bytes(Marker::UploadedForService), s),
        forall|j: int|
            0 <= j < s ==> !occurs_at(text, marker_bytes(Marker::UploadedForService), j),
        occurs_at(text, marker_bytes(Marker::RunApp), e),
        s + marker_bytes(Marker::UploadedForService).len() <= e,
        forall|j: int|
            s + marker_bytes(Marker::UploadedForService).len() <= j < e ==> !occurs_at(
                text,
                marker_bytes(Marker::RunApp),
                j,
            ),
        s + marker_bytes(Marker::UploadedForService).len() < e + marker_bytes(Marker::RunApp).len(),
    ensures
        service_label_of(text) == Ok::<Seq<u8>, ExtractionError>(
            text.subrange(
                s + marker_bytes(Marker::UploadedForService).len(),
                e + marker_bytes(Marker::RunApp).len(),
            ),
        ),
{
    lemma_between_exact(text, Marker::UploadedForService, Marker::RunApp, true, s, e);
}

/// The image reference spans from the first `gcr.io/<project>` through the
/// first occurrence of the config label after it, byte for byte.
pub proof fn lemma_build_image_exact(
    text: Seq<u8>,
    config_label: Seq<u8>,
    project: Seq<u8>,
    s: int,
    e: int,
)
    requires
        occurs_at(text, IMAGE_REGISTRY.spec_bytes() + project, s),
        forall|j: int| 0 <= j < s ==> !occurs_at(text, IMAGE_REGISTRY.spec_bytes() + project, j),
        occurs_at(text, config_label, e),
        s + IMAGE_REGISTRY.spec_bytes().len() + project.len() <= e,
        forall|j: int|
            s + IMAGE_REGISTRY.spec_bytes().len() + project.len() <= j < e ==> !occurs_at(
                text,
                config_label,
                j,
            ),
    ensures
        build_image_of(text, config_label, project) == Ok::<Seq<u8>, ExtractionError>(
            text.subrange(s, e + config_label.len()),
        ),
{
    let prefix = IMAGE_REGISTRY.spec_bytes() + project;
    lemma_first_match(text, prefix, 0);
    lemma_first_match(text, config_label, s + prefix.len());
}

/// Text in which either marker never occurs yields no label: the error
/// names a marker that is missing.
pub proof fn lemma_between_missing(text: Seq<u8>, start: Marker, end: Marker, keep_end: bool)
    requires
        (forall|j: int| !occurs_at(text, marker_bytes(start), j)) || (forall|j: int|
            !occurs_at(text, marker_bytes(end), j)),
    ensures
        between(text, start, end, keep_end) == Err::<Seq<u8>, ExtractionError>(
            ExtractionError::MarkerNotFound(start),
        ) || between(text, start, end, keep_end) == Err::<Seq<u8>, ExtractionError>(
            ExtractionError::MarkerNotFound(end),
        ),
        (forall|j: int| !occurs_at(text, marker_bytes(start), j)) ==> between(
            text,
            start,
            end,
            keep_end,
        ) == Err::<Seq<u8>, ExtractionError>(ExtractionError::MarkerNotFound(start)),
{
    lemma_first_match(text, marker_bytes(start), 0);
    match first_match(text, marker_bytes(start), 0) {
        None => {},
        Some(s) => {
            lemma_first_match(text, marker_bytes(end), s + marker_bytes(start).len());
        },
    }
}

/// Diagnostics lacking either config label marker give `MarkerNotFound`.
pub proof fn lemma_config_label_missing(text: Seq<u8>)
    requires
        (forall|j: int| !occurs_at(text, marker_bytes(Marker::ServiceConfiguration), j)) || (
        forall|j: int| !occurs_at(text, marker_bytes(Marker::UploadedForService), j)),
    ensures
        config_label_of(text) matches Err(ExtractionError::MarkerNotFound(_)),
{
    lemma_between_missing(text, Marker::ServiceConfiguration, Marker::UploadedForService, false);
}

/// Diagnostics lacking either service label marker give `MarkerNotFound`.
pub proof fn lemma_service_label_missing(text: Seq<u8>)
    requires
        (forall|j: int| !occurs_at(text, marker_bytes(Marker::UploadedForService), j)) || (forall|
            j: int,
        | !occurs_at(text, marker_bytes(Marker::RunApp), j)),
    ensures
        service_label_of(text) matches Err(ExtractionError::MarkerNotFound(_)),
{
    lemma_between_missing(text, Marker::UploadedForService, Marker::RunApp, true);
}

/// Build diagnostics lacking the registry prefix or the config label give
/// `ReferenceNotFound`.
pub proof fn lemma_build_image_missing(text: Seq<u8>, config_label: Seq<u8>, project: Seq<u8>)
    requires
        (forall|j: int| !occurs_at(text, IMAGE_REGISTRY.spec_bytes() + project, j)) || (forall|
            j: int,
        | !occurs_at(text, config_label, j)),
    ensures
        build_image_of(text, config_label, project) == Err::<Seq<u8>, ExtractionError>(
            ExtractionError::ReferenceNotFound,
        ),
{
    let prefix = IMAGE_REGISTRY.spec_bytes() + project;
    lemma_first_match(text, prefix, 0);
    match first_match(text, prefix, 0) {
        None => {},
        Some(s) => {
            lemma_first_match(text, config_label, s + prefix.len());
        },
    }
}

/// Every service label ends with the literal `.run.app]`.
pub proof fn lemma_service_label_suffix(text: Seq<u8>)
    ensures
        service_label_of(text) matches Ok(l) ==> l.len() >= RUN_APP.spec_bytes().len() && l.subrange(
            l.len() - RUN_APP.spec_bytes().len(),
            l.len() as int,
        ) == RUN_APP.spec_bytes(),
{
    let start = marker_bytes(Marker::UploadedForService);
    let end = marker_bytes(Marker::RunApp);
    lemma_first_match(text, start, 0);
    match first_match(text, start, 0) {
        None => {},
        Some(s) => {
            let a = s + start.len();
            lemma_first_match(text, end, a);
            match first_match(text, end, a) {
                None => {},
                Some(e) => {
                    if a != e + end.len() {
                        let l = text.subrange(a, e + end.len());
                        assert(l.subrange(l.len() - end.len(), l.len() as int) =~= text.subrange(
                            e,
                            e + end.len(),
                        ));
                    }
                },
            }
        },
    }
}

/// A label found between two markers is never empty.
pub proof fn lemma_between_nonempty(text: Seq<u8>, start: Marker, end: Marker, keep_end: bool)
    ensures
        between(text, start, end, keep_end) matches Ok(l) ==> l.len() > 0,
{
    lemma_first_match(text, marker_bytes(start), 0);
    if let Some(s) = first_match(text, marker_bytes(start), 0) {
        lemma_first_match(text, marker_bytes(end), s + marker_bytes(start).len());
    }
}

/// Extracting twice from the same text gives the same label or the same
/// error: each extractor's result is a function of the text alone.
pub proof fn lemma_extraction_repeatable(
    o: Result<Seq<u8>, ExtractionError>,
    r1: Result<&[u8], ExtractionError>,
    r2: Result<&[u8], ExtractionError>,
)
    requires
        same_outcome(r1, o),
        same_outcome(r2, o),
    ensures
        match (r1, r2) {
            (Ok(a), Ok(b)) => a@ == b@,
            (Err(x), Err(y)) => x == y,
            _ => false,
        },
{
}

} // verus!

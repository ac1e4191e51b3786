//! Resolving the command line into a deployment request.
use vstd::prelude::*;

verus! {

pub const YAML_PATH_FLAG: &'static str = "--yaml-path";

pub const BUILD_SCRIPT_PATH_FLAG: &'static str = "--build-script-path";

pub const PROJECT_ID_FLAG: &'static str = "--project-id";

pub const SERVICE_NAME_FLAG: &'static str = "--cloud-run-service-name";

pub const REGION_FLAG: &'static str = "--region";

pub const HELP_WORD: &'static str = "help";

pub const HELP_FLAG: &'static str = "--help";

/// The image build script used when the positional form names none.
pub const DEFAULT_BUILD_SCRIPT: &'static str = "./gcloud_build_image.sh";

/// The five inputs of a deployment.
#[derive(Clone, Copy, Debug, PartialEq, Eq, Structural)]
pub enum Field {
    SpecPath,
    BuildScriptPath,
    ProjectId,
    ServiceName,
    Region,
}

/// A command line that does not describe a deployment.
#[derive(Clone, Debug, PartialEq, Eq)]
pub enum ArgumentError {
    /// The last token is the flag of this field, with no value after it.
    MissingValue(Field),
    /// These fields were not given, or were given empty, in this order.
    MissingFields(Vec<Field>),
}

impl ArgumentError {
    /// The process exit status for a command line that was refused.
    pub fn exit_code(&self) -> (r: i32)
        ensures
            r == 2,
    {
        2
    }
}

/// A complete deployment request: every field given and non-empty.
#[derive(Clone, Debug, PartialEq, Eq)]
pub struct DeploymentRequest {
    pub spec_path: String,
    pub build_script_path: String,
    pub project_id: String,
    pub service_name: String,
    pub region: String,
}

/// What the command line asks for.
#[derive(Clone, Debug, PartialEq, Eq)]
pub enum Invocation {
    Help,
    Deploy(DeploymentRequest),
}

/// The fields gathered so far, each possibly absent.
#[derive(Clone, Debug)]
pub struct Arguments {
    pub path_to_open_api_specification: Option<String>,
    pub path_to_image_build_script: Option<String>,
    pub project_id: Option<String>,
    pub cloud_run_service_name: Option<String>,
    pub region: Option<String>,
}

pub open spec fn opt_view(o: Option<String>) -> Option<Seq<char>> {
    match o {
        Some(s) => Some(s@),
        None => None,
    }
}

/// A value that counts as given: present and non-empty.
pub open spec fn present(v: Option<Seq<char>>) -> bool {
    v matches Some(s) && s.len() > 0
}

pub open spec fn flag_text(f: Field) -> Seq<char> {
    match f {
        Field::SpecPath => YAML_PATH_FLAG@,
        Field::BuildScriptPath => BUILD_SCRIPT_PATH_FLAG@,
        Field::ProjectId => PROJECT_ID_FLAG@,
        Field::ServiceName => SERVICE_NAME_FLAG@,
        Field::Region => REGION_FLAG@,
    }
}

/// The field whose flag the token is, if any.
pub open spec fn flag_field(t: Seq<char>) -> Option<Field> {
    if t == flag_text(Field::SpecPath) {
        Some(Field::SpecPath)
    } else if t == flag_text(Field::BuildScriptPath) {
        Some(Field::BuildScriptPath)
    } else if t == flag_text(Field::ProjectId) {
        Some(Field::ProjectId)
    } else if t == flag_text(Field::ServiceName) {
        Some(Field::ServiceName)
    } else if t == flag_text(Field::Region) {
        Some(Field::Region)
    } else {
        None
    }
}

/// The tokens of a command line; the first names the program.
pub open spec fn tokens(v: Seq<String>) -> Seq<Seq<char>> {
    v.map_values(|s: String| s@)
}

pub open spec fn asks_for_help(a: Seq<Seq<char>>) -> bool {
    a.len() >= 2 && (a[1] == HELP_WORD@ || a[1] == HELP_FLAG@)
}

/// Some token after the program name is one of the five flags.
pub open spec fn flag_mode(a: Seq<Seq<char>>) -> bool {
    exists|i: int| 1 <= i < a.len() && flag_field(a[i]) is Some
}

/// The value that the last flag of `f` before token `n` carries.
pub open spec fn scanned(a: Seq<Seq<char>>, f: Field, n: int) -> Option<Seq<char>>
    decreases n,
{
    if n <= 1 {
        None
    } else if n < a.len() && flag_field(a[n - 1]) == Some(f) {
        Some(a[n])
    } else {
        scanned(a, f, n - 1)
    }
}

pub open spec fn token_at(a: Seq<Seq<char>>, i: int) -> Option<Seq<char>> {
    if i < a.len() {
        Some(a[i])
    } else {
        None
    }
}

/// Positional form: spec path, project id, service name, region, and
/// optionally the build script.
pub open spec fn positional_value(a: Seq<Seq<char>>, f: Field) -> Option<Seq<char>> {
    match f {
        Field::SpecPath => token_at(a, 1),
        Field::ProjectId => token_at(a, 2),
        Field::ServiceName => token_at(a, 3),
        Field::Region => token_at(a, 4),
        Field::BuildScriptPath => if a.len() > 5 {
            Some(a[5])
        } else {
            Some(DEFAULT_BUILD_SCRIPT@)
        },
    }
}

pub open spec fn resolved_value(a: Seq<Seq<char>>, f: Field) -> Option<Seq<char>> {
    if flag_mode(a) {
        scanned(a, f, a.len() as int)
    } else {
        positional_value(a, f)
    }
}

/// The flag that ends the command line without a value.
pub open spec fn dangling_flag(a: Seq<Seq<char>>) -> Option<Field> {
    if a.len() >= 2 {
        flag_field(a.last())
    } else {
        None
    }
}

pub open spec fn missing_if(a: Seq<Seq<char>>, f: Field) -> Seq<Field> {
    if present(resolved_value(a, f)) {
        seq![]
    } else {
        seq![f]
    }
}

/// The fields that are not given, in a fixed order.
pub open spec fn missing_fields(a: Seq<Seq<char>>) -> Seq<Field> {
    missing_if(a, Field::SpecPath) + missing_if(a, Field::BuildScriptPath) + missing_if(
        a,
        Field::ProjectId,
    ) + missing_if(a, Field::ServiceName) + missing_if(a, Field::Region)
}

impl DeploymentRequest {
    pub open spec fn field(&self, f: Field) -> Seq<char> {
        match f {
            Field::SpecPath => self.spec_path@,
            Field::BuildScriptPath => self.build_script_path@,
            Field::ProjectId => self.project_id@,
            Field::ServiceName => self.service_name@,
            Field::Region => self.region@,
        }
    }

    /// Every field is non-empty.
    pub open spec fn wf(&self) -> bool {
        forall|f: Field| #[trigger] self.field(f).len() > 0
    }
}

/// `r` is what the command line `a` resolves to.
pub open spec fn resolves_to(a: Seq<Seq<char>>, r: Result<DeploymentRequest, ArgumentError>) -> bool {
    match r {
        Ok(req) => dangling_flag(a) is None && missing_fields(a).len() == 0 && forall|f: Field|
            resolved_value(a, f) == Some(#[trigger] req.field(f)),
        Err(ArgumentError::MissingValue(f)) => dangling_flag(a) == Some(f),
        Err(ArgumentError::MissingFields(v)) => dangling_flag(a) is None && v@ == missing_fields(a)
            && v@.len() > 0,
    }
}

impl Arguments {
    pub open spec fn value(&self, f: Field) -> Option<Seq<char>> {
        match f {
            Field::SpecPath => opt_view(self.path_to_open_api_specification),
            Field::BuildScriptPath => opt_view(self.path_to_image_build_script),
            Field::ProjectId => opt_view(self.project_id),
            Field::ServiceName => opt_view(self.cloud_run_service_name),
            Field::Region => opt_view(self.region),
        }
    }

    /// No field gathered yet.
    pub fn new() -> (r: Arguments)
        ensures
            forall|f: Field| #[trigger] r.value(f) is None,
    {
        Arguments {
            path_to_open_api_specification: None,
            path_to_image_build_script: None,
            project_id: None,
            cloud_run_service_name: None,
            region: None,
        }
    }

    /// Every field is present and non-empty.
    pub fn has_all_arguments(&self) -> (r: bool)
        ensures
            r == forall|f: Field| present(#[trigger] self.value(f)),
    {
        let r = given(&self.path_to_open_api_specification) && given(
            &self.path_to_image_build_script,
        ) && given(&self.project_id) && given(&self.cloud_run_service_name) && given(&self.region);
        proof {
            if !r {
                if !present(self.value(Field::SpecPath)) {
                } else if !present(self.value(Field::BuildScriptPath)) {
                } else if !present(self.value(Field::ProjectId)) {
                } else if !present(self.value(Field::ServiceName)) {
                } else {
                    assert(!present(self.value(Field::Region)));
                }
            }
        }
        r
    }

    /// Records `v` as the value of `f`.
    pub fn set(&mut self, f: Field, v: String)
        ensures
            final(self).value(f) == Some(v@),
            forall|g: Field| g != f ==> #[trigger] final(self).value(g) == old(self).value(g),
    {
        match f {
            Field::SpecPath => self.path_to_open_api_specification = Some(v),
            Field::BuildScriptPath => self.path_to_image_build_script = Some(v),
            Field::ProjectId => self.project_id = Some(v),
            Field::ServiceName => self.cloud_run_service_name = Some(v),
            Field::Region => self.region = Some(v),
        }
    }
}

fn given(o: &Option<String>) -> (r: bool)
    ensures
        r == present(opt_view(*o)),
{
    match o {
        Some(s) => !s.as_str().is_empty(),
        None => false,
    }
}

fn is_token(t: &String, word: &'static str) -> (r: bool)
    ensures
        r == (t@ == word@),
{
    let w = word.to_owned();
    t.eq(&w)
}

/// The field whose flag `t` is, if any.
pub fn field_of_flag(t: &String) -> (r: Option<Field>)
    ensures
        r == flag_field(t@),
{
    if is_token(t, YAML_PATH_FLAG) {
        Some(Field::SpecPath)
    } else if is_token(t, BUILD_SCRIPT_PATH_FLAG) {
        Some(Field::BuildScriptPath)
    } else if is_token(t, PROJECT_ID_FLAG) {
        Some(Field::ProjectId)
    } else if is_token(t, SERVICE_NAME_FLAG) {
        Some(Field::ServiceName)
    } else if is_token(t, REGION_FLAG) {
        Some(Field::Region)
    } else {
        None
    }
}

fn missing_push(missing: &mut Vec<Field>, args: &Arguments, f: Field)
    ensures
        final(missing)@ == old(missing)@ + if present(args.value(f)) {
            Seq::<Field>::empty()
        } else {
            seq![f]
        },
{
    let v = match f {
        Field::SpecPath => &args.path_to_open_api_specification,
        Field::BuildScriptPath => &args.path_to_image_build_script,
        Field::ProjectId => &args.project_id,
        Field::ServiceName => &args.cloud_run_service_name,
        Field::Region => &args.region,
    };
    if !given(v) {
        missing.push(f);
    } else {
        assert(missing@ =~= missing@ + Seq::<Field>::empty());
    }
}

fn take(o: Option<String>) -> (r: String)
    requires
        o is Some,
    ensures
        Some(r@) == opt_view(o),
{
    match o {
        Some(s) => s,
        None => String::new(),
    }
}

/// Resolves the command line `arguments` (program name first) into a
/// deployment request. With any of the five flags present, each field takes
/// the value after its last flag; otherwise the tokens are read by position.
pub fn parse_arguments(arguments: &Vec<String>) -> (r: Result<DeploymentRequest, ArgumentError>)
    ensures
        resolves_to(tokens(arguments@), r),
{
    let ghost a = tokens(arguments@);
    let n = arguments.len();
    if n >= 2 {
        if let Some(f) = field_of_flag(&arguments[n - 1]) {
            assert(a.last() == arguments@[n - 1]@);
            return Err(ArgumentError::MissingValue(f));
        }
    }
    assert(dangling_flag(a) is None) by {
        if n >= 2 {
            assert(a.last() == arguments@[n - 1]@);
        }
    }
    let mut args = Arguments::new();
    let mut seen_flag = false;
    let mut i: usize = 1;
    while i < n
        invariant
            n == arguments@.len(),
            a == tokens(arguments@),
            1 <= i,
            i <= n || i == 1,
            forall|f: Field| #[trigger] args.value(f) == scanned(a, f, i as int),
            seen_flag == exists|j: int| 1 <= j < i && flag_field(a[j]) is Some,
        decreases n - i,
    {
        let g = field_of_flag(&arguments[i]);
        assert(a[i as int] == arguments@[i as int]@);
        if let Some(f) = g {
            seen_flag = true;
            if i + 1 < n {
                assert(a[i + 1] == arguments@[i + 1]@);
                args.set(f, arguments[i + 1].clone());
            }
        }
        assert forall|f: Field| #[trigger] args.value(f) == scanned(a, f, i + 1) by {
            assert(scanned(a, f, i + 1) == if i + 1 < a.len() && flag_field(a[i as int]) == Some(f) {
                Some(a[i + 1])
            } else {
                scanned(a, f, i as int)
            });
        }
        assert(seen_flag == exists|j: int| 1 <= j < i + 1 && flag_field(a[j]) is Some) by {
            if seen_flag && g is None {
                let j = choose|j: int| 1 <= j < i && flag_field(a[j]) is Some;
                assert(1 <= j < i + 1 && flag_field(a[j]) is Some);
            }
        }
        i = i + 1;
    }
    assert(flag_mode(a) == seen_flag) by {
        assert(a.len() == n);
        if flag_mode(a) {
            let j = choose|j: int| 1 <= j < a.len() && flag_field(a[j]) is Some;
            assert(1 <= j < i && flag_field(a[j]) is Some);
        }
        if seen_flag {
            let j = choose|j: int| 1 <= j < i && flag_field(a[j]) is Some;
            assert(1 <= j < a.len() && flag_field(a[j]) is Some);
        }
    }
    if !seen_flag {
        args = Arguments::new();
        let k: usize = 1;
        if k < n {
            assert(a[1] == arguments@[1]@);
            args.set(Field::SpecPath, arguments[1].clone());
        }
        let k: usize = 2;
        if k < n {
            assert(a[2] == arguments@[2]@);
            args.set(Field::ProjectId, arguments[2].clone());
        }
        let k: usize = 3;
        if k < n {
            assert(a[3] == arguments@[3]@);
            args.set(Field::ServiceName, arguments[3].clone());
        }
        let k: usize = 4;
        if k < n {
            assert(a[4] == arguments@[4]@);
            args.set(Field::Region, arguments[4].clone());
        }
        let k: usize = 5;
        if k < n {
            assert(a[5] == arguments@[5]@);
            args.set(Field::BuildScriptPath, arguments[5].clone());
        } else {
            args.set(Field::BuildScriptPath, DEFAULT_BUILD_SCRIPT.to_owned());
        }
    } else {
        assert(i == n);
    }
    assert(forall|f: Field| #[trigger] args.value(f) == resolved_value(a, f));
    let mut missing: Vec<Field> = Vec::new();
    missing_push(&mut missing, &args, Field::SpecPath);
    missing_push(&mut missing, &args, Field::BuildScriptPath);
    missing_push(&mut missing, &args, Field::ProjectId);
    missing_push(&mut missing, &args, Field::ServiceName);
    missing_push(&mut missing, &args, Field::Region);
    assert(missing@ =~= missing_fields(a));
    if missing.len() > 0 {
        return Err(ArgumentError::MissingFields(missing));
    }
    assert(present(args.value(Field::SpecPath)));
    assert(present(args.value(Field::BuildScriptPath)));
    assert(present(args.value(Field::ProjectId)));
    assert(present(args.value(Field::ServiceName)));
    assert(present(args.value(Field::Region)));
    let req = DeploymentRequest {
        spec_path: take(args.path_to_open_api_specification),
        build_script_path: take(args.path_to_image_build_script),
        project_id: take(args.project_id),
        service_name: take(args.cloud_run_service_name),
        region: take(args.region),
    };
    assert(forall|f: Field| resolved_value(a, f) == Some(#[trigger] req.field(f))) by {
        assert forall|f: Field| resolved_value(a, f) == Some(#[trigger] req.field(f)) by {
            match f {
                Field::SpecPath => {},
                Field::BuildScriptPath => {},
                Field::ProjectId => {},
                Field::ServiceName => {},
                Field::Region => {},
            }
        }
    }
    Ok(req)
}

/// A resolved request has every field non-empty.
pub proof fn lemma_resolved_request_wf(a: Seq<Seq<char>>, req: DeploymentRequest)
    requires
        resolves_to(a, Ok::<DeploymentRequest, ArgumentError>(req)),
    ensures
        req.wf(),
{
    let r = Ok::<DeploymentRequest, ArgumentError>(req);
    let rq = r->Ok_0;
    assert(forall|f: Field| resolved_value(a, f) == Some(#[trigger] rq.field(f)));
    assert forall|f: Field| #[trigger] req.field(f).len() > 0 by {
        assert(resolved_value(a, f) == Some(rq.field(f)));
        if !present(resolved_value(a, f)) {
            assert(missing_if(a, f).len() == 1);
            match f {
                Field::SpecPath => {},
                Field::BuildScriptPath => {},
                Field::ProjectId => {},
                Field::ServiceName => {},
                Field::Region => {},
            }
        }
    }
}

/// What the command line asks for: usage when its first argument is `help`
/// or `--help`, else the deployment that `parse_arguments` resolves.
pub fn parse_command(arguments: &Vec<String>) -> (r: Result<Invocation, ArgumentError>)
    ensures
        asks_for_help(tokens(arguments@)) ==> r == Ok::<Invocation, ArgumentError>(Invocation::Help),
        !asks_for_help(tokens(arguments@)) ==> match r {
            Ok(Invocation::Help) => false,
            Ok(Invocation::Deploy(req)) => resolves_to(
                tokens(arguments@),
                Ok::<DeploymentRequest, ArgumentError>(req),
            ),
            Err(e) => resolves_to(tokens(arguments@), Err::<DeploymentRequest, ArgumentError>(e)),
        },
{
    if arguments.len() >= 2 {
        assert(tokens(arguments@)[1] == arguments@[1]@);
        if is_token(&arguments[1], HELP_WORD) || is_token(&arguments[1], HELP_FLAG) {
            return Ok(Invocation::Help);
        }
    }
    match parse_arguments(arguments) {
        Ok(req) => Ok(Invocation::Deploy(req)),
        Err(e) => Err(e),
    }
}

} // verus!

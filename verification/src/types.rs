//! Canonical data model of the assistant core: actions, plans, results,
//! capability tokens, scopes, audit entries and snapshots, together with the
//! error kinds every stage of the pipeline reports.
//!
//! Scores (risk, confidence) are integers in thousandths: 150 stands for
//! 0.15, 1000 for 1.0. Action arguments are a tagged variant per action
//! kind, so the placeholder-path convention and the per-kind argument names
//! are fixed by the type rather than by string keys.

use vstd::prelude::*;
use crate::text;

verus! {

/// Risk value of the Low band, in thousandths.
pub const RISK_LOW: u32 = 150;

/// Risk value of the Medium band, in thousandths.
pub const RISK_MEDIUM: u32 = 500;

/// Risk value of the High band, in thousandths.
pub const RISK_HIGH: u32 = 800;

/// Risk value of the Critical band, in thousandths.
pub const RISK_CRITICAL: u32 = 950;

/// Highest possible risk score (1.0), in thousandths.
pub const RISK_MAX: u32 = 1000;

/// Snapshot and undo retention window: seven days, in seconds.
pub const RETENTION_SECONDS: i64 = 604800;

/// The placeholder a parsed action carries while the host still has to ask
/// the user for a path.
pub open spec fn prompt_path_seq() -> Seq<char> {
    "__PROMPT_PATH__"@
}

/// True iff `s` is the placeholder path.
pub fn is_prompt_path(s: &String) -> (r: bool)
    ensures
        r == (s@ == prompt_path_seq()),
{
    text::str_eq(s.as_str(), "__PROMPT_PATH__")
}

/// A fresh owned copy of the placeholder path.
pub fn prompt_path_string() -> (r: String)
    ensures
        r@ == prompt_path_seq(),
{
    "__PROMPT_PATH__".to_owned()
}

/// Copy of a string that keeps its characters.
pub fn clone_string(s: &String) -> (r: String)
    ensures
        r@ == s@,
{
    s.clone()
}

/// Copy of an argument payload that keeps its view.
pub fn clone_args(a: &ActionArgs) -> (r: ActionArgs)
    ensures
        r@ == a@,
{
    match a {
        ActionArgs::CreateFile { path, content, encoding } => ActionArgs::CreateFile {
            path: clone_string(path),
            content: clone_string(content),
            encoding: clone_string(encoding),
        },
        ActionArgs::ReadFile { path } => ActionArgs::ReadFile { path: clone_string(path) },
        ActionArgs::CopyFile { source_path, destination_path } => ActionArgs::CopyFile {
            source_path: clone_string(source_path),
            destination_path: clone_string(destination_path),
        },
        ActionArgs::MoveFile { source_path, destination_path } => ActionArgs::MoveFile {
            source_path: clone_string(source_path),
            destination_path: clone_string(destination_path),
        },
        ActionArgs::DeleteFile { path } => ActionArgs::DeleteFile { path: clone_string(path) },
        ActionArgs::CreateDirectory { path } => ActionArgs::CreateDirectory {
            path: clone_string(path),
        },
    }
}

/// Copy of an action that keeps its id and content.
pub fn clone_action(a: &Action) -> (r: Action)
    ensures
        r.skeleton() == a.skeleton(),
        r.id@ == a.id@,
{
    Action {
        id: clone_string(&a.id),
        action_type: a.action_type,
        args: clone_args(&a.args),
        preconditions: a.preconditions,
        metadata: a.metadata,
    }
}

/// Copy of a plan that keeps its ids and content.
pub fn clone_plan(p: &ActionPlan) -> (r: ActionPlan)
    ensures
        r.skeleton() == p.skeleton(),
        r.schema.id@ == p.schema.id@,
        r.schema.origin.request_id@ == p.schema.origin.request_id@,
        r.schema.actions@.len() == p.schema.actions@.len(),
        forall|k: int|
            0 <= k < p.schema.actions@.len() ==> #[trigger] r.schema.actions@[k].id@
                == p.schema.actions@[k].id@,
{
    let n = p.schema.actions.len();
    let mut actions: Vec<Action> = Vec::new();
    for i in 0..n
        invariant
            n == p.schema.actions@.len(),
            actions@.len() == i,
            forall|k: int|
                0 <= k < i ==> (#[trigger] actions@[k]).skeleton()
                    == p.schema.actions@[k].skeleton() && actions@[k].id@
                    == p.schema.actions@[k].id@,
    {
        actions.push(clone_action(&p.schema.actions[i]));
    }
    let r = ActionPlan {
        schema: ActionSchema {
            id: clone_string(&p.schema.id),
            origin: ActionOrigin {
                user_input: clone_string(&p.schema.origin.user_input),
                source: p.schema.origin.source,
                request_id: clone_string(&p.schema.origin.request_id),
            },
            actions,
            summary: clone_string(&p.schema.summary),
            risk_score: p.schema.risk_score,
            dry_run: p.schema.dry_run,
        },
    };
    proof {
        assert(r.schema.actions@.map_values(|a: Action| a.skeleton())
            =~= p.schema.actions@.map_values(|a: Action| a.skeleton()));
    }
    r
}

/// Where an action request came from.
#[derive(Clone, Copy, PartialEq, Eq, Structural, Debug)]
pub enum ActionSource {
    Ui,
    Voice,
    Automation,
    Plugin,
}

/// Origin and provenance of an action request.
pub struct ActionOrigin {
    pub user_input: String,
    pub source: ActionSource,
    pub request_id: String,
}

/// The closed set of supported action kinds.
#[derive(Clone, Copy, PartialEq, Eq, Structural, Debug)]
pub enum ActionType {
    FsCreateFile,
    FsReadFile,
    FsCopyFile,
    FsMoveFile,
    FsDeleteFile,
    FsCreateDirectory,
}

/// The serialized discriminant tag of an action kind.
pub open spec fn wire_tag(t: ActionType) -> Seq<char> {
    match t {
        ActionType::FsCreateFile => "fs_create_file"@,
        ActionType::FsReadFile => "fs_read_file"@,
        ActionType::FsCopyFile => "fs_copy_file"@,
        ActionType::FsMoveFile => "fs_move_file"@,
        ActionType::FsDeleteFile => "fs_delete_file"@,
        ActionType::FsCreateDirectory => "fs_create_directory"@,
    }
}

impl ActionType {
    /// The tag under which this kind appears on the wire.
    pub fn tag(&self) -> (r: &'static str)
        ensures
            r@ == wire_tag(*self),
    {
        match self {
            ActionType::FsCreateFile => "fs_create_file",
            ActionType::FsReadFile => "fs_read_file",
            ActionType::FsCopyFile => "fs_copy_file",
            ActionType::FsMoveFile => "fs_move_file",
            ActionType::FsDeleteFile => "fs_delete_file",
            ActionType::FsCreateDirectory => "fs_create_directory",
        }
    }

    /// The plain variant name, used in previews.
    pub fn variant_name(&self) -> (r: &'static str)
        ensures
            r@ == variant_name_seq(*self),
    {
        match self {
            ActionType::FsCreateFile => "FsCreateFile",
            ActionType::FsReadFile => "FsReadFile",
            ActionType::FsCopyFile => "FsCopyFile",
            ActionType::FsMoveFile => "FsMoveFile",
            ActionType::FsDeleteFile => "FsDeleteFile",
            ActionType::FsCreateDirectory => "FsCreateDirectory",
        }
    }
}

/// Spec form of [`ActionType::variant_name`].
pub open spec fn variant_name_seq(t: ActionType) -> Seq<char> {
    match t {
        ActionType::FsCreateFile => "FsCreateFile"@,
        ActionType::FsReadFile => "FsReadFile"@,
        ActionType::FsCopyFile => "FsCopyFile"@,
        ActionType::FsMoveFile => "FsMoveFile"@,
        ActionType::FsDeleteFile => "FsDeleteFile"@,
        ActionType::FsCreateDirectory => "FsCreateDirectory"@,
    }
}

/// Arguments of an action, one payload per action kind.
pub enum ActionArgs {
    CreateFile { path: String, content: String, encoding: String },
    ReadFile { path: String },
    CopyFile { source_path: String, destination_path: String },
    MoveFile { source_path: String, destination_path: String },
    DeleteFile { path: String },
    CreateDirectory { path: String },
}

/// Mathematical view of [`ActionArgs`].
pub enum ArgsV {
    CreateFile { path: Seq<char>, content: Seq<char>, encoding: Seq<char> },
    ReadFile { path: Seq<char> },
    CopyFile { source_path: Seq<char>, destination_path: Seq<char> },
    MoveFile { source_path: Seq<char>, destination_path: Seq<char> },
    DeleteFile { path: Seq<char> },
    CreateDirectory { path: Seq<char> },
}

impl View for ActionArgs {
    type V = ArgsV;

    open spec fn view(&self) -> ArgsV {
        match self {
            ActionArgs::CreateFile { path, content, encoding } => ArgsV::CreateFile {
                path: path@,
                content: content@,
                encoding: encoding@,
            },
            ActionArgs::ReadFile { path } => ArgsV::ReadFile { path: path@ },
            ActionArgs::CopyFile { source_path, destination_path } => ArgsV::CopyFile {
                source_path: source_path@,
                destination_path: destination_path@,
            },
            ActionArgs::MoveFile { source_path, destination_path } => ArgsV::MoveFile {
                source_path: source_path@,
                destination_path: destination_path@,
            },
            ActionArgs::DeleteFile { path } => ArgsV::DeleteFile { path: path@ },
            ActionArgs::CreateDirectory { path } => ArgsV::CreateDirectory { path: path@ },
        }
    }
}

/// The action kind an argument payload belongs to.
pub open spec fn args_kind(a: ArgsV) -> ActionType {
    match a {
        ArgsV::CreateFile { .. } => ActionType::FsCreateFile,
        ArgsV::ReadFile { .. } => ActionType::FsReadFile,
        ArgsV::CopyFile { .. } => ActionType::FsCopyFile,
        ArgsV::MoveFile { .. } => ActionType::FsMoveFile,
        ArgsV::DeleteFile { .. } => ActionType::FsDeleteFile,
        ArgsV::CreateDirectory { .. } => ActionType::FsCreateDirectory,
    }
}

/// The `path` argument of a payload, where the kind has one.
pub open spec fn primary_path_of(a: ArgsV) -> Option<Seq<char>> {
    match a {
        ArgsV::CreateFile { path, .. } => Some(path),
        ArgsV::ReadFile { path } => Some(path),
        ArgsV::CopyFile { .. } => None,
        ArgsV::MoveFile { .. } => None,
        ArgsV::DeleteFile { path } => Some(path),
        ArgsV::CreateDirectory { path } => Some(path),
    }
}

impl ActionArgs {
    /// The `path` argument, for the kinds that carry one.
    pub fn primary_path(&self) -> (r: Option<&String>)
        ensures
            match r {
                Some(p) => primary_path_of(self@) == Some(p@),
                None => primary_path_of(self@) is None,
            },
    {
        match self {
            ActionArgs::CreateFile { path, .. } => Some(path),
            ActionArgs::ReadFile { path } => Some(path),
            ActionArgs::CopyFile { .. } => None,
            ActionArgs::MoveFile { .. } => None,
            ActionArgs::DeleteFile { path } => Some(path),
            ActionArgs::CreateDirectory { path } => Some(path),
        }
    }
}

/// Booleans checked against the target path before execution.
#[derive(Clone, Copy, PartialEq, Eq, Structural, Debug)]
pub struct Precondition {
    pub writable: Option<bool>,
    pub readable: Option<bool>,
    pub exists: Option<bool>,
    pub directory: Option<bool>,
}

/// Extra information about a parsed action.
#[derive(Clone, Copy, PartialEq, Eq, Structural, Debug)]
pub struct ActionMetadata {
    /// Parser confidence, in thousandths.
    pub confidence: Option<u32>,
}

/// A single step of a plan.
pub struct Action {
    pub id: String,
    pub action_type: ActionType,
    pub args: ActionArgs,
    pub preconditions: Option<Precondition>,
    pub metadata: Option<ActionMetadata>,
}

/// Everything an action determines except its generated id.
pub struct ActionCore {
    pub action_type: ActionType,
    pub args: ArgsV,
    pub preconditions: Option<Precondition>,
    pub metadata: Option<ActionMetadata>,
}

impl Action {
    /// The id-free content of this action.
    pub open spec fn skeleton(&self) -> ActionCore {
        ActionCore {
            action_type: self.action_type,
            args: self.args@,
            preconditions: self.preconditions,
            metadata: self.metadata,
        }
    }
}

/// The canonical action plan, before verification.
pub struct ActionSchema {
    pub id: String,
    pub origin: ActionOrigin,
    pub actions: Vec<Action>,
    pub summary: String,
    /// Risk score in thousandths, between 0 and 1000.
    pub risk_score: u32,
    pub dry_run: bool,
}

/// Complete action plan (the schema plus nothing else; kept as its own type
/// so that verified plans cannot be confused with raw ones).
pub struct ActionPlan {
    pub schema: ActionSchema,
}

/// Everything a plan determines except its generated ids.
pub struct PlanCore {
    pub user_input: Seq<char>,
    pub source: ActionSource,
    pub actions: Seq<ActionCore>,
    pub summary: Seq<char>,
    pub risk_score: u32,
    pub dry_run: bool,
}

impl ActionPlan {
    /// The id-free content of this plan.
    pub open spec fn skeleton(&self) -> PlanCore {
        PlanCore {
            user_input: self.schema.origin.user_input@,
            source: self.schema.origin.source,
            actions: self.schema.actions@.map_values(|a: Action| a.skeleton()),
            summary: self.schema.summary@,
            risk_score: self.schema.risk_score,
            dry_run: self.schema.dry_run,
        }
    }
}

/// A plan that passed verification, with the recomputed risk score.
pub struct VerifiedPlan {
    pub plan: ActionPlan,
    pub verified_at: i64,
    pub verification_notes: Vec<String>,
}

/// What a single executed action produced.
pub enum ActionOutput {
    Created { path: String, size: usize },
    ReadContent { path: String, content: String, size: usize },
    Copied { source: String, destination: String },
    Moved { source: String, destination: String },
    Deleted { path: String },
    DirCreated { path: String },
}

/// Outcome of one action of a plan.
pub struct ActionExecutionResult {
    pub action_id: String,
    pub success: bool,
    pub output: Option<ActionOutput>,
    pub error: Option<String>,
    pub snapshot_id: Option<String>,
}

/// Outcome of a whole plan execution.
pub struct ActionResult {
    pub action_id: String,
    pub success: bool,
    pub executed_at: i64,
    pub results: Vec<ActionExecutionResult>,
    pub error: Option<String>,
    pub undo_available: bool,
    pub undo_ttl: Option<i64>,
}

/// One path a previewed plan would touch.
pub struct AffectedItem {
    pub path: String,
    pub operation: String,
    pub preview: Option<String>,
}

/// Read-only projection of a plan shown to the user before execution.
pub struct PreviewResult {
    pub plan: ActionPlan,
    /// Recomputed risk score in thousandths.
    pub risk_score: u32,
    pub affected_items: Vec<AffectedItem>,
    pub warnings: Vec<String>,
    pub requires_explicit_confirmation: bool,
    /// Ids of actions whose path is still the placeholder.
    pub missing_paths: Vec<String>,
}

/// Risk bands of a plan.
#[derive(Clone, Copy, PartialEq, Eq, Structural, Debug)]
pub enum RiskScore {
    Low,
    Medium,
    High,
    Critical,
}

impl RiskScore {
    /// Representative score of the band, in thousandths.
    pub fn value(&self) -> (r: u32)
        ensures
            r == risk_value(*self),
    {
        match self {
            RiskScore::Low => RISK_LOW,
            RiskScore::Medium => RISK_MEDIUM,
            RiskScore::High => RISK_HIGH,
            RiskScore::Critical => RISK_CRITICAL,
        }
    }

    /// Band of a score in thousandths: below 300 Low, below 700 Medium,
    /// below 900 High, else Critical.
    pub fn from_value(value: u32) -> (r: RiskScore)
        ensures
            r == risk_band(value),
    {
        if value < 300 {
            RiskScore::Low
        } else if value < 700 {
            RiskScore::Medium
        } else if value < 900 {
            RiskScore::High
        } else {
            RiskScore::Critical
        }
    }
}

/// Spec form of [`RiskScore::value`].
pub open spec fn risk_value(r: RiskScore) -> u32 {
    match r {
        RiskScore::Low => RISK_LOW,
        RiskScore::Medium => RISK_MEDIUM,
        RiskScore::High => RISK_HIGH,
        RiskScore::Critical => RISK_CRITICAL,
    }
}

/// Spec form of [`RiskScore::from_value`].
pub open spec fn risk_band(value: u32) -> RiskScore {
    if value < 300 {
        RiskScore::Low
    } else if value < 700 {
        RiskScore::Medium
    } else if value < 900 {
        RiskScore::High
    } else {
        RiskScore::Critical
    }
}

/// A capability token: a bearer credential with scopes and a lifetime.
pub struct CapabilityToken {
    pub nonce: String,
    pub scopes: Vec<String>,
    pub ttl_seconds: i64,
    pub session_id: String,
    pub expires_at: i64,
    pub issued_at: i64,
}

/// A parsed scope string `domain:operation:resource_glob`.
pub struct Scope {
    pub action_type: String,
    pub operation: String,
    pub resource_pattern: String,
}

/// An audit log entry; `signature` chains it to the previous entry.
pub struct AuditEntry {
    pub id: String,
    pub entry_json: String,
    pub timestamp: i64,
    pub prev_hash: String,
    pub signature: String,
    pub action_id: Option<String>,
}

/// Record of a file backed up before a destructive action.
pub struct ActionSnapshot {
    pub id: String,
    pub action_id: String,
    pub original_path: String,
    /// Handle of the stored copy. The snapshot manager of this core keeps
    /// the bytes itself, so the handle equals the snapshot id.
    pub snapshot_path: String,
    pub created_at: i64,
    pub retention_until: i64,
}

/// Ambient data for one execution call.
pub struct ExecutionContext {
    pub capability_token: Option<CapabilityToken>,
    pub user_home: String,
    pub allowed_paths: Vec<String>,
}

impl ExecutionContext {
    /// A context for the given home directory, with no token.
    pub fn new(user_home: String) -> (r: ExecutionContext)
        ensures
            r.capability_token is None,
            r.user_home@ == user_home@,
            r.allowed_paths@.len() == 1 && r.allowed_paths@[0]@ == user_home@,
    {
        let home_copy = clone_string(&user_home);
        ExecutionContext {
            capability_token: None,
            user_home,
            allowed_paths: vec![home_copy],
        }
    }

    /// The same context, carrying the given token.
    pub fn with_token(self, token: CapabilityToken) -> (r: ExecutionContext)
        ensures
            r.capability_token == Some(token),
            r.user_home == self.user_home,
            r.allowed_paths == self.allowed_paths,
    {
        ExecutionContext { capability_token: Some(token), ..self }
    }
}

/// Why a filesystem action failed.
#[derive(Debug)]
pub enum FsError {
    /// The path does not exist.
    NotFound { path: String },
    /// The path exists but is not a regular file.
    NotAFile { path: String },
    /// The destination exists and is a directory.
    DestinationIsDir { path: String },
    /// Only UTF-8 text can be written.
    UnsupportedEncoding { encoding: String },
}

/// Mathematical view of a filesystem error.
pub enum FsErrV {
    NotFound { path: Seq<char> },
    NotAFile { path: Seq<char> },
    DestinationIsDir { path: Seq<char> },
    UnsupportedEncoding { encoding: Seq<char> },
}

impl View for FsError {
    type V = FsErrV;

    open spec fn view(&self) -> FsErrV {
        match self {
            FsError::NotFound { path } => FsErrV::NotFound { path: path@ },
            FsError::NotAFile { path } => FsErrV::NotAFile { path: path@ },
            FsError::DestinationIsDir { path } => FsErrV::DestinationIsDir { path: path@ },
            FsError::UnsupportedEncoding { encoding } => FsErrV::UnsupportedEncoding {
                encoding: encoding@,
            },
        }
    }
}

/// Mathematical view of an action's output.
pub enum OutputV {
    Created { path: Seq<char>, size: int },
    ReadContent { path: Seq<char>, content: Seq<char>, size: int },
    Copied { source: Seq<char>, destination: Seq<char> },
    Moved { source: Seq<char>, destination: Seq<char> },
    Deleted { path: Seq<char> },
    DirCreated { path: Seq<char> },
}

impl View for ActionOutput {
    type V = OutputV;

    open spec fn view(&self) -> OutputV {
        match self {
            ActionOutput::Created { path, size } => OutputV::Created {
                path: path@,
                size: *size as int,
            },
            ActionOutput::ReadContent { path, content, size } => OutputV::ReadContent {
                path: path@,
                content: content@,
                size: *size as int,
            },
            ActionOutput::Copied { source, destination } => OutputV::Copied {
                source: source@,
                destination: destination@,
            },
            ActionOutput::Moved { source, destination } => OutputV::Moved {
                source: source@,
                destination: destination@,
            },
            ActionOutput::Deleted { path } => OutputV::Deleted { path: path@ },
            ActionOutput::DirCreated { path } => OutputV::DirCreated { path: path@ },
        }
    }
}

/// Error kinds reported by the pipeline.
#[derive(Debug)]
pub enum CoreError {
    /// No deterministic rule matched; the caller should fall back to an
    /// external planner.
    ParseFailure,
    /// A scope string is not `domain:operation:resource_glob`.
    InvalidScope,
    /// An action's declared kind does not match its argument payload.
    InvalidAction,
    /// A path failed validation (traversal outside the root).
    ValidationFailure { path: String },
    /// A precondition did not hold for the given path.
    PreconditionFailure { path: String },
    /// The capability token covers no scope for this path.
    PermissionDenied { path: String },
    /// An action failed during execution; the plan was rolled back.
    ExecutionFailure { action_id: String, error: FsError },
    /// A snapshot could not be taken.
    SnapshotFailure { path: String },
    /// The token string could not be decoded or its signature is wrong.
    TokenInvalid,
    /// The token's signature is fine but its lifetime is over.
    TokenExpired,
}

/// Mathematical view of a pipeline error.
pub enum CoreErrV {
    ParseFailure,
    InvalidScope,
    InvalidAction,
    ValidationFailure { path: Seq<char> },
    PreconditionFailure { path: Seq<char> },
    PermissionDenied { path: Seq<char> },
    ExecutionFailure { action_id: Seq<char>, error: FsErrV },
    SnapshotFailure { path: Seq<char> },
    TokenInvalid,
    TokenExpired,
}

impl View for CoreError {
    type V = CoreErrV;

    open spec fn view(&self) -> CoreErrV {
        match self {
            CoreError::ParseFailure => CoreErrV::ParseFailure,
            CoreError::InvalidScope => CoreErrV::InvalidScope,
            CoreError::InvalidAction => CoreErrV::InvalidAction,
            CoreError::ValidationFailure { path } => CoreErrV::ValidationFailure { path: path@ },
            CoreError::PreconditionFailure { path } => CoreErrV::PreconditionFailure {
                path: path@,
            },
            CoreError::PermissionDenied { path } => CoreErrV::PermissionDenied { path: path@ },
            CoreError::ExecutionFailure { action_id, error } => CoreErrV::ExecutionFailure {
                action_id: action_id@,
                error: error@,
            },
            CoreError::SnapshotFailure { path } => CoreErrV::SnapshotFailure { path: path@ },
            CoreError::TokenInvalid => CoreErrV::TokenInvalid,
            CoreError::TokenExpired => CoreErrV::TokenExpired,
        }
    }
}

} // verus!

//! Recipes: a versioned, ordered list of named operation steps, saved as
//! TOML and replayed over many inputs. Parsing TOML is done at the edge;
//! this module holds the limits and the validation a parsed recipe must
//! pass, and the bundled recipes.

pub mod bundled;

use vstd::prelude::*;

use crate::operation::registry::RegistryError;
use crate::strings::{decimal, push_decimal, push_str, str_eq};

verus! {

/// The recipe schema version written by default.
pub const SUPPORTED_VERSION: &'static str = "1";

/// The recipe schema version that adds the `format` and `quality` fields.
pub const SUPPORTED_VERSION_2: &'static str = "2";

/// The supported versions, as listed in an error.
pub const SUPPORTED_VERSIONS_DISPLAY: &'static str = "1, 2";

/// A recipe larger than this many bytes is rejected before parsing.
pub const RECIPE_MAX_BYTES: usize = 65536;

/// A recipe with more steps than this is rejected.
pub const RECIPE_MAX_STEPS: usize = 1024;

/// The op name of the terminal "optimize" step.
pub const OPTIMIZE_STEP_OP: &'static str = "optimize";

/// A recipe load or build failure.
#[derive(Debug, Clone, PartialEq, Eq)]
pub enum RecipeError {
    /// The recipe's `version` is not supported.
    UnsupportedVersion { found: String, supported: &'static str },
    /// A step names an operation the registry does not know.
    UnknownOperation { name: String },
    /// A step's parameters are invalid for its operation.
    InvalidOperation { name: String, reason: String },
    /// The TOML was malformed.
    Parse(String),
    /// The recipe could not be serialized.
    Serialize(String),
    /// The recipe text exceeds [`RECIPE_MAX_BYTES`].
    TooLarge { size: usize, max: usize },
    /// The recipe has more than [`RECIPE_MAX_STEPS`] steps.
    TooManySteps { count: usize, max: usize },
    /// A field that needs `version = "2"` appears in an older recipe.
    NewFieldNeedsVersion2 { field: &'static str, found: String },
}

/// The human message of a recipe error.
pub open spec fn spec_recipe_error_message(e: RecipeError) -> Seq<char> {
    match e {
        RecipeError::UnsupportedVersion { found, supported } => "unsupported recipe version '"@
            + found@ + "' (supported: "@ + supported@ + ")"@,
        RecipeError::UnknownOperation { name } => "unknown operation '"@ + name@ + "'"@,
        RecipeError::InvalidOperation { name, reason } => "invalid operation '"@ + name@ + "': "@
            + reason@,
        RecipeError::Parse(s) => "could not parse recipe TOML: "@ + s@,
        RecipeError::Serialize(s) => "could not serialize recipe to TOML: "@ + s@,
        RecipeError::TooLarge { size, max } => "recipe is too large ("@ + decimal(size as nat)
            + " bytes; max "@ + decimal(max as nat) + ")"@,
        RecipeError::TooManySteps { count, max } => "recipe has too many steps ("@ + decimal(
            count as nat,
        ) + "; max "@ + decimal(max as nat) + ")"@,
        RecipeError::NewFieldNeedsVersion2 { field, found } => "recipe field '"@ + field@
            + "' requires `version = \"2\"` (found version \""@ + found@ + "\")"@,
    }
}

impl RecipeError {
    /// The human message.
    pub fn message(&self) -> (m: String)
        ensures
            m@ == spec_recipe_error_message(*self),
    {
        let mut m = String::new();
        match self {
            RecipeError::UnsupportedVersion { found, supported } => {
                push_str(&mut m, "unsupported recipe version '");
                push_str(&mut m, found.as_str());
                push_str(&mut m, "' (supported: ");
                push_str(&mut m, supported);
                push_str(&mut m, ")");
            },
            RecipeError::UnknownOperation { name } => {
                push_str(&mut m, "unknown operation '");
                push_str(&mut m, name.as_str());
                push_str(&mut m, "'");
            },
            RecipeError::InvalidOperation { name, reason } => {
                push_str(&mut m, "invalid operation '");
                push_str(&mut m, name.as_str());
                push_str(&mut m, "': ");
                push_str(&mut m, reason.as_str());
            },
            RecipeError::Parse(s) => {
                push_str(&mut m, "could not parse recipe TOML: ");
                push_str(&mut m, s.as_str());
            },
            RecipeError::Serialize(s) => {
                push_str(&mut m, "could not serialize recipe to TOML: ");
                push_str(&mut m, s.as_str());
            },
            RecipeError::TooLarge { size, max } => {
                push_str(&mut m, "recipe is too large (");
                push_decimal(&mut m, *size as u64);
                push_str(&mut m, " bytes; max ");
                push_decimal(&mut m, *max as u64);
                push_str(&mut m, ")");
            },
            RecipeError::TooManySteps { count, max } => {
                push_str(&mut m, "recipe has too many steps (");
                push_decimal(&mut m, *count as u64);
                push_str(&mut m, "; max ");
                push_decimal(&mut m, *max as u64);
                push_str(&mut m, ")");
            },
            RecipeError::NewFieldNeedsVersion2 { field, found } => {
                push_str(&mut m, "recipe field '");
                push_str(&mut m, field);
                push_str(&mut m, "' requires `version = \"2\"` (found version \"");
                push_str(&mut m, found.as_str());
                push_str(&mut m, "\")");
            },
        }
        m
    }
}

/// Whether `v` is a supported recipe version.
pub open spec fn spec_supported_version(v: Seq<char>) -> bool {
    v == SUPPORTED_VERSION@ || v == SUPPORTED_VERSION_2@
}

/// Whether `v` is a supported recipe version (`1` or `2`).
pub fn is_supported_version(v: &str) -> (b: bool)
    ensures
        b == spec_supported_version(v@),
{
    str_eq(v, SUPPORTED_VERSION) || str_eq(v, SUPPORTED_VERSION_2)
}

/// Reject recipe text of `len` bytes over [`RECIPE_MAX_BYTES`] before it is
/// parsed.
pub fn check_recipe_size(len: usize) -> (r: Result<(), RecipeError>)
    ensures
        len <= RECIPE_MAX_BYTES ==> r is Ok,
        len > RECIPE_MAX_BYTES ==> r == Err::<(), RecipeError>(
            RecipeError::TooLarge { size: len, max: RECIPE_MAX_BYTES },
        ),
{
    if len > RECIPE_MAX_BYTES {
        Err(RecipeError::TooLarge { size: len, max: RECIPE_MAX_BYTES })
    } else {
        Ok(())
    }
}

/// The check a parsed recipe must pass, in order: a supported version; no
/// `format` or `quality` field below version 2; at most
/// [`RECIPE_MAX_STEPS`] steps. `Ok` carries nothing; the first failure is
/// the error.
pub open spec fn spec_validate(version: Seq<char>, has_format: bool, has_quality: bool, step_count: usize) -> Option<RecipeErrorKind> {
    if !spec_supported_version(version) {
        Some(RecipeErrorKind::UnsupportedVersion)
    } else if version != SUPPORTED_VERSION_2@ && has_format {
        Some(RecipeErrorKind::FormatNeedsVersion2)
    } else if version != SUPPORTED_VERSION_2@ && has_quality {
        Some(RecipeErrorKind::QualityNeedsVersion2)
    } else if step_count > RECIPE_MAX_STEPS {
        Some(RecipeErrorKind::TooManySteps)
    } else {
        None
    }
}

/// Which validation failure a recipe hits.
pub enum RecipeErrorKind {
    UnsupportedVersion,
    FormatNeedsVersion2,
    QualityNeedsVersion2,
    TooManySteps,
}

/// Validate the fields of a parsed recipe: its `version`, whether it sets
/// `format` or `quality`, and its step count.
pub fn validate_recipe(version: &str, has_format: bool, has_quality: bool, step_count: usize) -> (r: Result<(), RecipeError>)
    ensures
        match spec_validate(version@, has_format, has_quality, step_count) {
            None => r is Ok,
            Some(RecipeErrorKind::UnsupportedVersion) => r matches Err(
                RecipeError::UnsupportedVersion { found, supported },
            ) && found@ == version@ && supported@ == SUPPORTED_VERSIONS_DISPLAY@,
            Some(RecipeErrorKind::FormatNeedsVersion2) => r matches Err(
                RecipeError::NewFieldNeedsVersion2 { field, found },
            ) && field@ == "format"@ && found@ == version@,
            Some(RecipeErrorKind::QualityNeedsVersion2) => r matches Err(
                RecipeError::NewFieldNeedsVersion2 { field, found },
            ) && field@ == "quality"@ && found@ == version@,
            Some(RecipeErrorKind::TooManySteps) => r == Err::<(), RecipeError>(
                RecipeError::TooManySteps { count: step_count, max: RECIPE_MAX_STEPS },
            ),
        },
{
    if !is_supported_version(version) {
        return Err(
            RecipeError::UnsupportedVersion {
                found: version.to_owned(),
                supported: SUPPORTED_VERSIONS_DISPLAY,
            },
        );
    }
    if !str_eq(version, SUPPORTED_VERSION_2) {
        if has_format {
            return Err(RecipeError::NewFieldNeedsVersion2 { field: "format", found: version.to_owned() });
        }
        if has_quality {
            return Err(RecipeError::NewFieldNeedsVersion2 { field: "quality", found: version.to_owned() });
        }
    }
    if step_count > RECIPE_MAX_STEPS {
        return Err(RecipeError::TooManySteps { count: step_count, max: RECIPE_MAX_STEPS });
    }
    Ok(())
}

/// Whether a recipe whose last step is `last_op` ends with the terminal
/// `optimize` marker (which is no pixel operation).
pub fn ends_with_optimize(last_op: Option<&str>) -> (b: bool)
    ensures
        b == (last_op matches Some(op) && op@ == OPTIMIZE_STEP_OP@),
{
    match last_op {
        Some(op) => str_eq(op, OPTIMIZE_STEP_OP),
        None => false,
    }
}

/// The recipe error a registry build failure becomes.
pub fn from_registry_error(e: RegistryError) -> (r: RecipeError)
    ensures
        match e {
            RegistryError::Unknown { name } => r == (RecipeError::UnknownOperation { name }),
            RegistryError::InvalidParams { op, reason } => r matches RecipeError::InvalidOperation {
                name: n,
                reason: rr,
            } && n@ == op@ && rr == reason,
        },
{
    match e {
        RegistryError::Unknown { name } => RecipeError::UnknownOperation { name },
        RegistryError::InvalidParams { op, reason } => RecipeError::InvalidOperation {
            name: op.to_owned(),
            reason,
        },
    }
}

} // verus!

//! Validation of a backup job's prerequisites. Probing the filesystem is
//! the caller's I/O; the verdict over the probe results, the order of the
//! checks, and the exact warnings are decided and proved here.
use vstd::prelude::*;

verus! {

/// What probing the source and target established. The caller fills it in
/// the order the checks run: when the target is missing it first tries to
/// create it, recording the outcome in `target_created`.
#[derive(Clone, Copy, Debug)]
pub struct ValidationProbe {
    pub source_exists: bool,
    pub source_is_dir: bool,
    pub source_equals_target: bool,
    pub source_readable: bool,
    pub target_exists: bool,
    pub target_created: bool,
    pub target_is_dir: bool,
    pub target_writable: bool,
    pub target_inside_source: bool,
    pub long_paths: bool,
}

/// The outcome of the free-space comparison on the target device.
#[derive(Clone, Debug, PartialEq, Eq)]
pub enum DiskSpaceCheck {
    Sufficient,
    Insufficient,
    /// The query failed; the message describes why.
    Unknown { message: String },
}

/// Why a backup job failed validation, in the order the checks run.
#[derive(Clone, Copy, Debug, PartialEq, Eq, Structural)]
pub enum ValidationError {
    SourceMissing,
    SourceNotDirectory,
    SourceEqualsTarget,
    SourceNotReadable,
    TargetCreateFailed,
    TargetNotDirectory,
    TargetNotWritable,
    TargetInsideSource,
}

/// A passed validation and its non-fatal warnings.
#[derive(Debug)]
pub struct ValidationResult {
    pub is_valid: bool,
    pub warnings: Vec<String>,
}

/// The first failing check, if any.
pub open spec fn spec_validation_error(p: ValidationProbe) -> Option<ValidationError> {
    if !p.source_exists {
        Some(ValidationError::SourceMissing)
    } else if !p.source_is_dir {
        Some(ValidationError::SourceNotDirectory)
    } else if p.source_equals_target {
        Some(ValidationError::SourceEqualsTarget)
    } else if !p.source_readable {
        Some(ValidationError::SourceNotReadable)
    } else if !p.target_exists && !p.target_created {
        Some(ValidationError::TargetCreateFailed)
    } else if p.target_exists && !p.target_is_dir {
        Some(ValidationError::TargetNotDirectory)
    } else if !p.target_writable {
        Some(ValidationError::TargetNotWritable)
    } else if p.target_inside_source {
        Some(ValidationError::TargetInsideSource)
    } else {
        None
    }
}

/// The warnings a passed validation carries, in order: the free-space
/// verdict first, then the long-path notice.
pub open spec fn spec_validation_warnings(p: ValidationProbe, disk: DiskSpaceCheck) -> Seq<
    Seq<char>,
> {
    (match disk {
        DiskSpaceCheck::Sufficient => Seq::empty(),
        DiskSpaceCheck::Insufficient => seq!["Target disk space may be insufficient"@],
        DiskSpaceCheck::Unknown { message } => seq![
            "Could not verify disk space: "@ + message@,
        ],
    }) + if p.long_paths {
        seq!["Using Windows extended path support for long paths"@]
    } else {
        Seq::empty()
    }
}

/// Judge a backup job from the probe results: the first failing check is
/// the error; a job that passes is valid, with the free-space and long-path
/// warnings the probe calls for.
pub fn validate_backup_job(probe: &ValidationProbe, disk: &DiskSpaceCheck) -> (r: Result<
    ValidationResult,
    ValidationError,
>)
    ensures
        r is Err <==> spec_validation_error(*probe) is Some,
        r matches Err(e) ==> Some(e) == spec_validation_error(*probe),
        r matches Ok(v) ==> v.is_valid && v.warnings@.map_values(|w: String| w@)
            == spec_validation_warnings(*probe, *disk),
{
    if !probe.source_exists {
        return Err(ValidationError::SourceMissing);
    }
    if !probe.source_is_dir {
        return Err(ValidationError::SourceNotDirectory);
    }
    if probe.source_equals_target {
        return Err(ValidationError::SourceEqualsTarget);
    }
    if !probe.source_readable {
        return Err(ValidationError::SourceNotReadable);
    }
    if !probe.target_exists && !probe.target_created {
        return Err(ValidationError::TargetCreateFailed);
    }
    if probe.target_exists && !probe.target_is_dir {
        return Err(ValidationError::TargetNotDirectory);
    }
    if !probe.target_writable {
        return Err(ValidationError::TargetNotWritable);
    }
    if probe.target_inside_source {
        return Err(ValidationError::TargetInsideSource);
    }
    let mut warnings: Vec<String> = Vec::new();
    match disk {
        DiskSpaceCheck::Sufficient => {},
        DiskSpaceCheck::Insufficient => {
            warnings.push(String::from_str("Target disk space may be insufficient"));
        },
        DiskSpaceCheck::Unknown { message } => {
            let mut w = String::from_str("Could not verify disk space: ");
            w.append(message.as_str());
            warnings.push(w);
        },
    }
    if probe.long_paths {
        warnings.push(String::from_str("Using Windows extended path support for long paths"));
    }
    proof {
        assert(warnings@.map_values(|w: String| w@) =~= spec_validation_warnings(*probe, *disk));
    }
    Ok(ValidationResult { is_valid: true, warnings })
}

/// Whether the target device holds enough room: at least 110 percent of the
/// source's size, the multiplication saturating as the caller's fallback
/// does.
pub fn disk_space_sufficient(available: u64, source_size: u64) -> (r: bool)
    ensures
        r == (available >= spec_required_space(source_size)),
{
    let required: u64 = if source_size > u64::MAX / 11 {
        u64::MAX / 10
    } else {
        source_size * 11 / 10
    };
    proof {
        assert(required == spec_required_space(source_size));
    }
    available >= required
}

/// The room a backup needs: 110 percent of the source's size, saturating at
/// the largest representable size.
pub open spec fn spec_required_space(source_size: u64) -> int {
    if source_size > u64::MAX / 11 {
        (u64::MAX / 10) as int
    } else {
        source_size * 11 / 10
    }
}

} // verus!

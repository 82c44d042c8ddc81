//! Errors of the belt engine, with their rendered messages and diagnostic codes.
use vstd::prelude::*;
use crate::model::{clone_opt, clone_vec, opt_view, views, DeepClone};

verus! {

/// Errors of the engine, the parser front-end and the linter.
#[derive(Debug, PartialEq)]
pub enum BeltError {
    YamlParse { message: String, src: Option<String> },
    FileNotFound { path: String },
    ConfigParse { path: String, detail: String },
    InvalidPipeline { message: String },
    GateFailed { message: String },
    VerifyRequired { phase_id: String },
    MaxRetriesExceeded { phase_id: String, attempts: u32, max_retries: u32 },
    RegateRequired { phase_id: String, targets: Vec<String> },
    RegateFailed { phase_id: String, targets: Vec<String> },
    State { message: String },
    /// An I/O failure, held by its rendered text.
    Io { message: String },
}

/// Model of a [`BeltError`].
pub enum ErrorModel {
    YamlParse { message: Seq<char>, src: Option<Seq<char>> },
    FileNotFound { path: Seq<char> },
    ConfigParse { path: Seq<char>, detail: Seq<char> },
    InvalidPipeline { message: Seq<char> },
    GateFailed { message: Seq<char> },
    VerifyRequired { phase_id: Seq<char> },
    MaxRetriesExceeded { phase_id: Seq<char>, attempts: u32, max_retries: u32 },
    RegateRequired { phase_id: Seq<char>, targets: Seq<Seq<char>> },
    RegateFailed { phase_id: Seq<char>, targets: Seq<Seq<char>> },
    State { message: Seq<char> },
    Io { message: Seq<char> },
}

impl View for BeltError {
    type V = ErrorModel;

    open spec fn view(&self) -> ErrorModel {
        match self {
            BeltError::YamlParse { message, src } => ErrorModel::YamlParse { message: message@, src: opt_view(*src) },
            BeltError::FileNotFound { path } => ErrorModel::FileNotFound { path: path@ },
            BeltError::ConfigParse { path, detail } => ErrorModel::ConfigParse { path: path@, detail: detail@ },
            BeltError::InvalidPipeline { message } => ErrorModel::InvalidPipeline { message: message@ },
            BeltError::GateFailed { message } => ErrorModel::GateFailed { message: message@ },
            BeltError::VerifyRequired { phase_id } => ErrorModel::VerifyRequired { phase_id: phase_id@ },
            BeltError::MaxRetriesExceeded { phase_id, attempts, max_retries } => ErrorModel::MaxRetriesExceeded {
                phase_id: phase_id@,
                attempts: *attempts,
                max_retries: *max_retries,
            },
            BeltError::RegateRequired { phase_id, targets } => ErrorModel::RegateRequired {
                phase_id: phase_id@,
                targets: views(targets@),
            },
            BeltError::RegateFailed { phase_id, targets } => ErrorModel::RegateFailed {
                phase_id: phase_id@,
                targets: views(targets@),
            },
            BeltError::State { message } => ErrorModel::State { message: message@ },
            BeltError::Io { message } => ErrorModel::Io { message: message@ },
        }
    }
}

/// The decimal digits of `n`.
pub open spec fn decimal(n: nat) -> Seq<char>
    decreases n,
{
    if n < 10 {
        seq![digit_char(n)]
    } else {
        decimal(n / 10).push(digit_char(n % 10))
    }
}

/// The character of the decimal digit `d`.
pub open spec fn digit_char(d: nat) -> char {
    "0123456789"@[d as int]
}

fn push_digit(out: &mut String, d: u64)
    requires
        d < 10,
    ensures
        final(out)@ == old(out)@.push(digit_char(d as nat)),
{
    proof {
        reveal_strlit("0123456789");
    }
    crate::text::push_char_of(out, "0123456789", d as usize);
}

/// The decimal text of `n`.
pub fn decimal_text(n: u64) -> (r: String)
    ensures
        r@ == decimal(n as nat),
    decreases n,
{
    if n < 10 {
        let mut s = String::new();
        push_digit(&mut s, n);
        s
    } else {
        let mut s = decimal_text(n / 10);
        push_digit(&mut s, n % 10);
        s
    }
}

/// The text that `std`'s `Debug` formatting gives a list of strings.
pub uninterp spec fn debug_list_text(items: Seq<Seq<char>>) -> Seq<char>;

/// Renders `items` with `std`'s `Debug` formatting (`["a", "b"]`).
/// Trusted: the text equals `debug_list_text` of the items; its escaping
/// rules are `std`'s and are not stated here.
#[verifier::external_body]
fn debug_list(items: &Vec<String>) -> (r: String)
    ensures
        r@ == debug_list_text(views(items@)),
{
    format!("{items:?}")
}

/// The rendered message of an error.
pub open spec fn message_spec(e: ErrorModel) -> Seq<char> {
    match e {
        ErrorModel::YamlParse { message, src } => "YAML parse error: "@ + message,
        ErrorModel::FileNotFound { path } => "file not found: "@ + path,
        ErrorModel::ConfigParse { path, detail } => "config parse error in "@ + path + ": "@ + detail,
        ErrorModel::InvalidPipeline { message } => "invalid pipeline: "@ + message,
        ErrorModel::GateFailed { message } => "gate failed: "@ + message,
        ErrorModel::VerifyRequired { phase_id } => "verify required for phase '"@ + phase_id
            + "': run verify before step"@,
        ErrorModel::MaxRetriesExceeded { phase_id, attempts, max_retries } => "max retries exceeded for phase '"@
            + phase_id + "': "@ + decimal(attempts as nat) + "/"@ + decimal(max_retries as nat),
        ErrorModel::RegateRequired { phase_id, targets } => "regate required for phase '"@ + phase_id
            + "': run regate before step"@,
        ErrorModel::RegateFailed { phase_id, targets } => "regate failed for phase '"@ + phase_id
            + "': targets "@ + debug_list_text(targets) + " did not pass"@,
        ErrorModel::State { message } => "state error: "@ + message,
        ErrorModel::Io { message } => message,
    }
}

/// The diagnostic code of an error.
pub open spec fn code_spec(e: ErrorModel) -> Seq<char> {
    match e {
        ErrorModel::YamlParse { .. } => "belt::yaml_parse"@,
        ErrorModel::FileNotFound { .. } => "belt::file_not_found"@,
        ErrorModel::ConfigParse { .. } => "belt::config_parse"@,
        ErrorModel::InvalidPipeline { .. } => "belt::invalid_pipeline"@,
        ErrorModel::GateFailed { .. } => "belt::gate_failed"@,
        ErrorModel::VerifyRequired { .. } => "belt::verify_required"@,
        ErrorModel::MaxRetriesExceeded { .. } => "belt::max_retries_exceeded"@,
        ErrorModel::RegateRequired { .. } => "belt::regate_required"@,
        ErrorModel::RegateFailed { .. } => "belt::regate_failed"@,
        ErrorModel::State { .. } => "belt::state"@,
        ErrorModel::Io { .. } => "belt::io"@,
    }
}

fn cat(a: &str, b: &str) -> (r: String)
    ensures
        r@ == a@ + b@,
{
    let mut s = String::from_str(a);
    s.append(b);
    s
}

impl BeltError {
    /// The rendered message of this error.
    pub fn message(&self) -> (r: String)
        ensures
            r@ == message_spec(self@),
    {
        match self {
            BeltError::YamlParse { message, .. } => cat("YAML parse error: ", message.as_str()),
            BeltError::FileNotFound { path } => cat("file not found: ", path.as_str()),
            BeltError::ConfigParse { path, detail } => {
                let mut s = cat("config parse error in ", path.as_str());
                s.append(": ");
                s.append(detail.as_str());
                s
            },
            BeltError::InvalidPipeline { message } => cat("invalid pipeline: ", message.as_str()),
            BeltError::GateFailed { message } => cat("gate failed: ", message.as_str()),
            BeltError::VerifyRequired { phase_id } => {
                let mut s = cat("verify required for phase '", phase_id.as_str());
                s.append("': run verify before step");
                s
            },
            BeltError::MaxRetriesExceeded { phase_id, attempts, max_retries } => {
                let mut s = cat("max retries exceeded for phase '", phase_id.as_str());
                s.append("': ");
                let a = decimal_text(*attempts as u64);
                s.append(a.as_str());
                s.append("/");
                let m = decimal_text(*max_retries as u64);
                s.append(m.as_str());
                s
            },
            BeltError::RegateRequired { phase_id, .. } => {
                let mut s = cat("regate required for phase '", phase_id.as_str());
                s.append("': run regate before step");
                s
            },
            BeltError::RegateFailed { phase_id, targets } => {
                let mut s = cat("regate failed for phase '", phase_id.as_str());
                s.append("': targets ");
                let t = debug_list(targets);
                s.append(t.as_str());
                s.append(" did not pass");
                s
            },
            BeltError::State { message } => cat("state error: ", message.as_str()),
            BeltError::Io { message } => message.clone(),
        }
    }

    /// The diagnostic code of this error.
    pub fn code(&self) -> (r: &'static str)
        ensures
            r@ == code_spec(self@),
    {
        match self {
            BeltError::YamlParse { .. } => "belt::yaml_parse",
            BeltError::FileNotFound { .. } => "belt::file_not_found",
            BeltError::ConfigParse { .. } => "belt::config_parse",
            BeltError::InvalidPipeline { .. } => "belt::invalid_pipeline",
            BeltError::GateFailed { .. } => "belt::gate_failed",
            BeltError::VerifyRequired { .. } => "belt::verify_required",
            BeltError::MaxRetriesExceeded { .. } => "belt::max_retries_exceeded",
            BeltError::RegateRequired { .. } => "belt::regate_required",
            BeltError::RegateFailed { .. } => "belt::regate_failed",
            BeltError::State { .. } => "belt::state",
            BeltError::Io { .. } => "belt::io",
        }
    }
}


impl DeepClone for BeltError {
    fn deep_clone(&self) -> (r: BeltError) {
        match self {
            BeltError::YamlParse { message, src } => BeltError::YamlParse {
                message: message.clone(),
                src: clone_opt(src),
            },
            BeltError::FileNotFound { path } => BeltError::FileNotFound { path: path.clone() },
            BeltError::ConfigParse { path, detail } => BeltError::ConfigParse {
                path: path.clone(),
                detail: detail.clone(),
            },
            BeltError::InvalidPipeline { message } => BeltError::InvalidPipeline { message: message.clone() },
            BeltError::GateFailed { message } => BeltError::GateFailed { message: message.clone() },
            BeltError::VerifyRequired { phase_id } => BeltError::VerifyRequired { phase_id: phase_id.clone() },
            BeltError::MaxRetriesExceeded { phase_id, attempts, max_retries } => BeltError::MaxRetriesExceeded {
                phase_id: phase_id.clone(),
                attempts: *attempts,
                max_retries: *max_retries,
            },
            BeltError::RegateRequired { phase_id, targets } => BeltError::RegateRequired {
                phase_id: phase_id.clone(),
                targets: clone_vec(targets),
            },
            BeltError::RegateFailed { phase_id, targets } => BeltError::RegateFailed {
                phase_id: phase_id.clone(),
                targets: clone_vec(targets),
            },
            BeltError::State { message } => BeltError::State { message: message.clone() },
            BeltError::Io { message } => BeltError::Io { message: message.clone() },
        }
    }
}
} // verus!

//! Resolving secret references: environment variables, cloud vaults that are
//! not supported yet, and literal values.
use vstd::prelude::*;
use crate::error::PipelineError;
use crate::text::{
    chars_of, contains, contains_text, has_prefix, push_str, starts_with,
    string_from_chars, suffix_from,
};

verus! {

/// Where a secret reference points.
pub enum SecretKind {
    /// `env:NAME`: the environment variable `NAME`.
    Environment,
    /// `arn:aws:secretsmanager:...`.
    AwsSecretsManager,
    /// A reference that mentions `vault.azure.net`.
    AzureKeyVault,
    /// `gcp:...`.
    GcpSecretManager,
    /// Anything else stands for itself.
    Literal,
}

/// The kind of the reference `s`; the prefixes are tested in this order.
pub open spec fn secret_kind(s: Seq<char>) -> SecretKind {
    if has_prefix(s, "env:"@) {
        SecretKind::Environment
    } else if has_prefix(s, "arn:aws:secretsmanager:"@) {
        SecretKind::AwsSecretsManager
    } else if contains_text(s, "vault.azure.net"@) {
        SecretKind::AzureKeyVault
    } else if has_prefix(s, "gcp:"@) {
        SecretKind::GcpSecretManager
    } else {
        SecretKind::Literal
    }
}

/// The kind of the reference `secret_ref`.
pub fn classify(secret_ref: &str) -> (r: SecretKind)
    ensures
        r == secret_kind(secret_ref@),
{
    if starts_with(secret_ref, "env:") {
        SecretKind::Environment
    } else if starts_with(secret_ref, "arn:aws:secretsmanager:") {
        SecretKind::AwsSecretsManager
    } else if contains(secret_ref, "vault.azure.net") {
        SecretKind::AzureKeyVault
    } else if starts_with(secret_ref, "gcp:") {
        SecretKind::GcpSecretManager
    } else {
        SecretKind::Literal
    }
}

/// The variable that an `env:` reference names.
pub open spec fn env_var_name(s: Seq<char>) -> Seq<char> {
    s.subrange(4, s.len() as int)
}

/// The environment variable to read for `secret_ref`, where it is an `env:`
/// reference.
pub fn env_var_of(secret_ref: &str) -> (r: Option<String>)
    ensures
        secret_kind(secret_ref@) == SecretKind::Environment ==> (r matches Some(v) && v@
            == env_var_name(secret_ref@)),
        secret_kind(secret_ref@) != SecretKind::Environment ==> r is None,
{
    if starts_with(secret_ref, "env:") {
        proof {
            reveal_strlit("env:");
        }
        Some(suffix_from(secret_ref, 4))
    } else {
        None
    }
}

/// Whether `e` is a secret retrieval failure for `key` with message `m`.
pub open spec fn is_secret_failure(e: PipelineError, key: Seq<char>, m: Seq<char>) -> bool {
    e matches PipelineError::SecretRetrievalFailed { key: k, message } && k@ == key && message@
        == m
}

/// The plaintext of `secret_ref`, given the value `env_value` of the variable
/// that an `env:` reference names (as read from the environment): that value,
/// or a failure where the variable is not set; a failure for the vaults; the
/// reference itself where it is a literal.
pub fn resolve(secret_ref: &str, env_value: Option<String>) -> (r: Result<String, PipelineError>)
    ensures
        match secret_kind(secret_ref@) {
            SecretKind::Environment => match env_value {
                Some(v) => r matches Ok(s) && s@ == v@,
                None => r matches Err(e) && is_secret_failure(
                    e,
                    env_var_name(secret_ref@),
                    "Environment variable '"@ + env_var_name(secret_ref@) + "' not set"@,
                ),
            },
            SecretKind::AwsSecretsManager => r matches Err(e) && is_secret_failure(
                e,
                secret_ref@,
                "AWS Secrets Manager not yet implemented"@,
            ),
            SecretKind::AzureKeyVault => r matches Err(e) && is_secret_failure(
                e,
                secret_ref@,
                "Azure Key Vault not yet implemented"@,
            ),
            SecretKind::GcpSecretManager => r matches Err(e) && is_secret_failure(
                e,
                secret_ref@,
                "GCP Secret Manager not yet implemented"@,
            ),
            SecretKind::Literal => r matches Ok(s) && s@ == secret_ref@,
        },
{
    match classify(secret_ref) {
        SecretKind::Environment => {
            proof {
                reveal_strlit("env:");
            }
            let var = suffix_from(secret_ref, 4);
            match env_value {
                Some(v) => Ok(v),
                None => {
                    let mut m = chars_of("Environment variable '");
                    push_str(&mut m, var.as_str());
                    push_str(&mut m, "' not set");
                    Err(
                        PipelineError::SecretRetrievalFailed {
                            key: var,
                            message: string_from_chars(&m),
                        },
                    )
                },
            }
        },
        SecretKind::AwsSecretsManager => Err(
            PipelineError::SecretRetrievalFailed {
                key: string_from_chars(&chars_of(secret_ref)),
                message: string_from_chars(&chars_of("AWS Secrets Manager not yet implemented")),
            },
        ),
        SecretKind::AzureKeyVault => Err(
            PipelineError::SecretRetrievalFailed {
                key: string_from_chars(&chars_of(secret_ref)),
                message: string_from_chars(&chars_of("Azure Key Vault not yet implemented")),
            },
        ),
        SecretKind::GcpSecretManager => Err(
            PipelineError::SecretRetrievalFailed {
                key: string_from_chars(&chars_of(secret_ref)),
                message: string_from_chars(&chars_of("GCP Secret Manager not yet implemented")),
            },
        ),
        SecretKind::Literal => Ok(string_from_chars(&chars_of(secret_ref))),
    }
}

} // verus!

//! Tests of the checksum-manifest parsing and lookup.

use captions_models::oracle::{get_expected_sha256_for_model, manifest_lookup};

const SHA_A: &str = "aaaaaaaaaabbbbbbbbbbccccccccccdddddddddd";
const SHA_B: &str = "0123456789012345678901234567890123456789";

fn manifest() -> String {
    let mut text = String::new();
    text.push_str("Intro prose that is not part of the table.\n");
    text.push_str("\n");
    text.push_str("| Model | Disk | SHA |\n");
    text.push_str("| --- | --- | --- |\n");
    text.push_str(&format!("| tiny | 75 MiB | `{}` |\n", SHA_A));
    text.push_str(&format!("| medium.en | 1.5 GiB | `{}` |\n", SHA_B));
    text.push_str("\n");
    text.push_str("Trailing prose after the table.\n");
    text
}

#[test]
fn lookup_finds_hash_for_model_row() {
    let text = manifest();
    assert_eq!(manifest_lookup(&text, "ggml-tiny.bin"), Some(SHA_A.to_string()));
}

#[test]
fn lookup_derives_filename_from_model_name() {
    // Dots and underscores become dashes in the artifact filename.
    let text = manifest();
    assert_eq!(
        manifest_lookup(&text, "ggml-medium-en.bin"),
        Some(SHA_B.to_string())
    );
    assert_eq!(manifest_lookup(&text, "ggml-medium.en.bin"), None);
}

#[test]
fn lookup_collapses_double_dashes() {
    let text = format!("| Model | d | s |\n| large__v3 | x | `{}` |\n", SHA_A);
    assert_eq!(
        manifest_lookup(&text, "ggml-large-v3.bin"),
        Some(SHA_A.to_string())
    );
}

#[test]
fn lookup_ignores_rows_before_header() {
    let text = format!("| tiny | 75 MiB | `{}` |\nno table follows\n", SHA_A);
    assert_eq!(manifest_lookup(&text, "ggml-tiny.bin"), None);
}

#[test]
fn lookup_stops_at_first_line_after_table() {
    let text = format!(
        "| Model | d | s |\nend of table\n| tiny | 75 MiB | `{}` |\n",
        SHA_A
    );
    assert_eq!(manifest_lookup(&text, "ggml-tiny.bin"), None);
}

#[test]
fn lookup_takes_the_later_duplicate_row() {
    let text = format!(
        "| Model | d | s |\n| tiny | x | `{}` |\n| tiny | x | `{}` |\n",
        SHA_A, SHA_B
    );
    assert_eq!(manifest_lookup(&text, "ggml-tiny.bin"), Some(SHA_B.to_string()));
}

#[test]
fn lookup_rejects_malformed_rows() {
    // Too few columns, an empty model name, and a hash of the wrong length.
    let text = format!(
        "| Model | d | s |\n| tiny `{}` |\n|  | x | `{}` |\n| base | x | `abc` |\n",
        SHA_A, SHA_A
    );
    assert_eq!(manifest_lookup(&text, "ggml-tiny.bin"), None);
    assert_eq!(manifest_lookup(&text, "ggml-.bin"), None);
    assert_eq!(manifest_lookup(&text, "ggml-base.bin"), None);
}

#[test]
fn expected_hash_resolves_from_manifest_text() {
    let fetched: Result<String, String> = Ok(manifest());
    assert_eq!(
        get_expected_sha256_for_model("ggml-tiny.bin", &fetched),
        Ok(SHA_A.to_string())
    );
}

#[test]
fn expected_hash_reports_missing_model() {
    let fetched: Result<String, String> = Ok(manifest());
    assert_eq!(
        get_expected_sha256_for_model("ggml-huge.bin", &fetched),
        Err("No SHA256 found for model ggml-huge.bin in README".to_string())
    );
}

#[test]
fn expected_hash_propagates_fetch_failure() {
    let fetched: Result<String, String> = Err("Failed to fetch README: timed out".to_string());
    assert_eq!(
        get_expected_sha256_for_model("ggml-tiny.bin", &fetched),
        Err("Failed to fetch README: timed out".to_string())
    );
}

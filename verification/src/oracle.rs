//! The checksum oracle: resolving the expected content hash for a named
//! artifact from the fetched manifest document.
//!
//! The manifest is plain text holding a pipe-delimited table. Rows are read
//! between a header line starting `| Model` and the first line after it
//! that is not a table row. A row's second column names the model and its
//! fourth column holds the reference hash wrapped in backticks; the
//! artifact filename is derived from the model name by dashing dots and
//! underscores and collapsing double dashes. A later row for the same
//! artifact overrides an earlier one.

use vstd::prelude::*;

use crate::strutil::{
    collapse_double_dash, replace_with_dash, spec_collapse_double_dash, spec_dashed, spec_split,
    spec_starts_with, spec_trim, spec_trim_matches, spec_views, split_char, starts_with, str_eq,
    trim, trim_matches,
};

verus! {

/// The artifact filename a model name in the table denotes.
pub open spec fn spec_derived_filename(model: Seq<char>) -> Seq<char> {
    "ggml-"@ + spec_collapse_double_dash(spec_dashed(spec_dashed(model, '.'), '_')) + ".bin"@
}

/// The artifact/hash pair a table row denotes, if it is a well-formed row:
/// at least four pipe-separated columns, a non-empty model name in the
/// second, and a 40-character hash in the fourth after stripping backticks.
pub open spec fn spec_row_entry(line: Seq<char>) -> Option<(Seq<char>, Seq<char>)> {
    let cols = spec_split(line, '|');
    if cols.len() >= 4 {
        let model = spec_trim(cols[1]);
        let sha = spec_trim_matches(spec_trim(cols[3]), '`');
        if model.len() > 0 && sha.len() == 40 {
            Some((spec_derived_filename(model), sha))
        } else {
            None
        }
    } else {
        None
    }
}

/// Scans lines for the hash of `name`. Before the header line the scan is
/// outside the table; inside it, each row is read and the last row naming
/// the artifact wins; the first non-row line after the header ends the
/// table.
pub open spec fn spec_scan(lines: Seq<Seq<char>>, in_table: bool, name: Seq<char>) -> Option<
    Seq<char>,
>
    decreases lines.len(),
{
    if lines.len() == 0 {
        None
    } else {
        let t = spec_trim(lines[0]);
        if spec_starts_with(t, "| Model"@) {
            spec_scan(lines.drop_first(), true, name)
        } else if in_table && spec_starts_with(t, "|"@) {
            let rest = spec_scan(lines.drop_first(), true, name);
            if rest is Some {
                rest
            } else {
                match spec_row_entry(lines[0]) {
                    Some(p) => if p.0 == name {
                        Some(p.1)
                    } else {
                        None
                    },
                    None => None,
                }
            }
        } else if in_table {
            None
        } else {
            spec_scan(lines.drop_first(), false, name)
        }
    }
}

/// The hash the manifest text declares for the artifact `name`, if any.
pub open spec fn spec_manifest_lookup(text: Seq<char>, name: Seq<char>) -> Option<Seq<char>> {
    spec_scan(spec_split(text, '\n'), false, name)
}

/// Derives the artifact filename from a model name in the table.
fn derived_filename(model: &str) -> (r: String)
    ensures
        r@ == spec_derived_filename(model@),
{
    let d1 = replace_with_dash(model, '.');
    let d2 = replace_with_dash(d1.as_str(), '_');
    let c = collapse_double_dash(d2.as_str());
    let mut out = "ggml-".to_owned();
    out.append(c.as_str());
    out.append(".bin");
    out
}

/// Reads one table row into its artifact/hash pair, if well formed.
fn parse_row(line: &str) -> (r: Option<(String, String)>)
    ensures
        match r {
            Some(p) => spec_row_entry(line@) == Some((p.0@, p.1@)),
            None => spec_row_entry(line@) is None,
        },
{
    let cols = split_char(line, '|');
    if cols.len() >= 4 {
        proof {
            assert(spec_views(cols@)[1] == cols@[1]@);
            assert(spec_views(cols@)[3] == cols@[3]@);
        }
        let model = trim(cols[1].as_str());
        let sha = trim_matches(trim(cols[3].as_str()), '`');
        if model.unicode_len() > 0 && sha.unicode_len() == 40 {
            let fname = derived_filename(model);
            Some((fname, sha.to_owned()))
        } else {
            None
        }
    } else {
        proof {
            assert(spec_views(cols@).len() == cols@.len());
        }
        None
    }
}

/// Looks the artifact `filename` up in the manifest text, returning the
/// declared hash if a table row names it.
pub fn manifest_lookup(text: &str, filename: &str) -> (r: Option<String>)
    ensures
        match r {
            Some(h) => spec_manifest_lookup(text@, filename@) == Some(h@),
            None => spec_manifest_lookup(text@, filename@) is None,
        },
{
    let lines = split_char(text, '\n');
    let n = lines.len();
    let ghost lv = spec_views(lines@);
    let ghost goal = spec_manifest_lookup(text@, filename@);
    let mut in_table = false;
    let mut found: Option<String> = None;
    let mut i: usize = 0;
    proof {
        assert(lv.skip(0) =~~= lv);
    }
    while i < n
        invariant
            n == lines@.len(),
            lv == spec_views(lines@),
            lv == spec_split(text@, '\n'),
            goal == spec_manifest_lookup(text@, filename@),
            i <= n,
            goal == match spec_scan(lv.skip(i as int), in_table, filename@) {
                Some(x) => Some(x),
                None => match found {
                    Some(h) => Some(h@),
                    None => None,
                },
            },
        decreases n - i,
    {
        let ghost suffix = lv.skip(i as int);
        proof {
            assert(suffix[0] == lines@[i as int]@);
            assert(suffix.drop_first() =~~= lv.skip(i + 1 as int));
        }
        let t = trim(lines[i].as_str());
        if starts_with(t, "| Model") {
            in_table = true;
        } else if in_table && starts_with(t, "|") {
            match parse_row(lines[i].as_str()) {
                Some(p) => {
                    if str_eq(p.0.as_str(), filename) {
                        found = Some(p.1);
                    }
                },
                None => {},
            }
        } else if in_table {
            return found;
        }
        i += 1;
    }
    proof {
        assert(lv.skip(n as int) =~~= Seq::<Seq<char>>::empty());
    }
    found
}

/// The expected hash for `model_name`, resolved from the fetched manifest.
///
/// `manifest` carries the manifest text, or the fetch failure reported by
/// the caller, which is passed through unchanged. An artifact absent from
/// the table is reported in the error message.
pub fn get_expected_sha256_for_model(model_name: &str, manifest: &Result<String, String>) -> (r:
    Result<String, String>)
    ensures
        match manifest {
            Result::Err(e) => r matches Result::Err(m) && m@ == e@,
            Result::Ok(text) => match spec_manifest_lookup(text@, model_name@) {
                Some(h) => r matches Result::Ok(v) && v@ == h,
                None => r matches Result::Err(m) && m@ == "No SHA256 found for model "@
                    + model_name@ + " in README"@,
            },
        },
{
    match manifest {
        Result::Err(e) => Result::Err(e.clone()),
        Result::Ok(text) => match manifest_lookup(text.as_str(), model_name) {
            Some(h) => Result::Ok(h),
            None => {
                let mut msg = "No SHA256 found for model ".to_owned();
                msg.append(model_name);
                msg.append(" in README");
                Result::Err(msg)
            },
        },
    }
}

} // verus!

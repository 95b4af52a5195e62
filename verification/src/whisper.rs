//! Building the argument list handed to the bundled transcription binary.

use vstd::prelude::*;

verus! {

/// The argument list for a transcription run: the model path, the language,
/// and the input file — `-` when the audio is piped in on standard input.
pub fn build_whisper_args(model_path: &str, language: &str, input: &str, is_stdin: bool) -> (r:
    Vec<String>)
    ensures
        r@.len() == 6,
        r@[0]@ == "-m"@,
        r@[1]@ == model_path@,
        r@[2]@ == "-l"@,
        r@[3]@ == language@,
        r@[4]@ == "-f"@,
        r@[5]@ == if is_stdin {
            "-"@
        } else {
            input@
        },
{
    let mut args: Vec<String> = Vec::new();
    args.push("-m".to_owned());
    args.push(model_path.to_owned());
    args.push("-l".to_owned());
    args.push(language.to_owned());
    args.push("-f".to_owned());
    if is_stdin {
        args.push("-".to_owned());
    } else {
        args.push(input.to_owned());
    }
    args
}

} // verus!

//! Voice input and output: which speech backends serve, and the command
//! lines handed to the recording, recognition, synthesis and playback tools.

use vstd::prelude::*;
use crate::text::{chars_eq, chars_of, decimal, decimal_chars, string_of, text, trim, trim_of};

verus! {

/// Available speech-synthesis backends.
#[derive(Debug, Clone, Copy, PartialEq, Eq)]
pub enum TtsBackend {
    Piper,
    EspeakNg,
    /// No backend could be started.
    Unavailable,
}

/// Available speech-recognition backends.
#[derive(Debug, Clone, Copy, PartialEq, Eq)]
pub enum SttBackend {
    WhisperCpp,
    /// No backend could be started.
    Unavailable,
}

impl TtsBackend {
    /// The name shown in the backend status.
    pub fn name(&self) -> (r: &'static str)
        ensures
            r@ == match self {
                TtsBackend::Piper => "Piper"@,
                TtsBackend::EspeakNg => "EspeakNg"@,
                TtsBackend::Unavailable => "None"@,
            },
    {
        match self {
            TtsBackend::Piper => "Piper",
            TtsBackend::EspeakNg => "EspeakNg",
            TtsBackend::Unavailable => "None",
        }
    }
}

impl SttBackend {
    /// The name shown in the backend status.
    pub fn name(&self) -> (r: &'static str)
        ensures
            r@ == match self {
                SttBackend::WhisperCpp => "WhisperCpp"@,
                SttBackend::Unavailable => "None"@,
            },
    {
        match self {
            SttBackend::WhisperCpp => "WhisperCpp",
            SttBackend::Unavailable => "None",
        }
    }
}

/// The recognition backend, given whether `whisper-cli` and then
/// `whisper.cpp` could be started.
pub fn stt_from_probes(whisper_cli_runs: bool, whisper_cpp_runs: bool) -> (r: SttBackend)
    ensures
        r == (if whisper_cli_runs || whisper_cpp_runs { SttBackend::WhisperCpp } else { SttBackend::Unavailable }),
{
    if whisper_cli_runs || whisper_cpp_runs {
        SttBackend::WhisperCpp
    } else {
        SttBackend::Unavailable
    }
}

/// The synthesis backend, given whether `piper` and then `espeak-ng` could
/// be started: piper first, espeak-ng as the fallback.
pub fn tts_from_probes(piper_runs: bool, espeak_runs: bool) -> (r: TtsBackend)
    ensures
        r == (if piper_runs {
            TtsBackend::Piper
        } else if espeak_runs {
            TtsBackend::EspeakNg
        } else {
            TtsBackend::Unavailable
        }),
{
    if piper_runs {
        TtsBackend::Piper
    } else if espeak_runs {
        TtsBackend::EspeakNg
    } else {
        TtsBackend::Unavailable
    }
}

/// Whether a list of strings holds the given character sequences.
pub open spec fn args_are(args: Seq<String>, want: Seq<Seq<char>>) -> bool {
    args.len() == want.len() && forall|i: int| 0 <= i < args.len() ==> #[trigger] args[i]@ == want[i]
}

fn push_arg(args: &mut Vec<String>, a: &str)
    ensures
        final(args)@.len() == old(args)@.len() + 1,
        forall|i: int| 0 <= i < old(args)@.len() ==> #[trigger] final(args)@[i] == old(args)@[i],
        final(args)@.last()@ == a@,
{
    args.push(String::from_str(a));
}

/// The `arecord` arguments: 16-bit little-endian mono at 16 kHz for the
/// given number of seconds.
pub fn arecord_args(output_path: &str, duration_secs: u32) -> (r: Vec<String>)
    ensures
        args_are(r@, seq!["-f"@, "S16_LE"@, "-r"@, "16000"@, "-c"@, "1"@, "-d"@, decimal(duration_secs as nat), output_path@]),
{
    let mut v: Vec<String> = Vec::new();
    push_arg(&mut v, "-f");
    push_arg(&mut v, "S16_LE");
    push_arg(&mut v, "-r");
    push_arg(&mut v, "16000");
    push_arg(&mut v, "-c");
    push_arg(&mut v, "1");
    push_arg(&mut v, "-d");
    let d = decimal_chars(duration_secs as u128);
    v.push(string_of(&d));
    push_arg(&mut v, output_path);
    v
}

/// The recording through `parecord` (WAV, mono at 16 kHz) bounded to the
/// given number of seconds: the arguments of `timeout`, which stops
/// `parecord` with an interrupt once the time is up, so that it closes the
/// file, and exits with `parecord`'s own status.
pub fn parecord_args(output_path: &str, duration_secs: u32) -> (r: Vec<String>)
    ensures
        args_are(r@, seq!["--preserve-status"@, "--signal=INT"@, decimal(duration_secs as nat), "parecord"@,
            "--file-format=wav"@, "--rate=16000"@, "--channels=1"@, output_path@]),
{
    let mut v: Vec<String> = Vec::new();
    push_arg(&mut v, "--preserve-status");
    push_arg(&mut v, "--signal=INT");
    let d = decimal_chars(duration_secs as u128);
    v.push(string_of(&d));
    push_arg(&mut v, "parecord");
    push_arg(&mut v, "--file-format=wav");
    push_arg(&mut v, "--rate=16000");
    push_arg(&mut v, "--channels=1");
    push_arg(&mut v, output_path);
    v
}

/// The `whisper-cli` arguments: base model, English, text output.
pub fn whisper_args(audio_path: &str) -> (r: Vec<String>)
    ensures
        args_are(r@, seq!["--model"@, "base"@, "--language"@, "en"@, "--output-format"@, "txt"@, audio_path@]),
{
    let mut v: Vec<String> = Vec::new();
    push_arg(&mut v, "--model");
    push_arg(&mut v, "base");
    push_arg(&mut v, "--language");
    push_arg(&mut v, "en");
    push_arg(&mut v, "--output-format");
    push_arg(&mut v, "txt");
    push_arg(&mut v, audio_path);
    v
}

/// Where synthesized speech is written before it is played.
pub open spec fn speech_output_path() -> Seq<char> {
    "/tmp/hope-voice-output.wav"@
}

/// The `piper` arguments for speaking a text.
pub fn piper_args(text: &str) -> (r: Vec<String>)
    ensures
        args_are(r@, seq!["--text"@, text@, "--output_file"@, speech_output_path()]),
{
    let mut v: Vec<String> = Vec::new();
    push_arg(&mut v, "--text");
    push_arg(&mut v, text);
    push_arg(&mut v, "--output_file");
    push_arg(&mut v, "/tmp/hope-voice-output.wav");
    v
}

/// The arguments for playing a file with a player: `mpv` is told not to
/// show video, the others get the path alone.
pub fn player_args(player: &str, path: &str) -> (r: Vec<String>)
    ensures
        player@ == "mpv"@ ==> args_are(r@, seq!["--no-video"@, path@]),
        player@ != "mpv"@ ==> args_are(r@, seq![path@]),
{
    let mut v: Vec<String> = Vec::new();
    if chars_eq(&chars_of(player), &text("mpv")) {
        push_arg(&mut v, "--no-video");
    }
    push_arg(&mut v, path);
    v
}

/// The transcript in recognizer output: the output trimmed.
pub fn transcript(output: &str) -> (r: String)
    ensures
        r@ == trim_of(output@),
{
    let t = trim(&chars_of(output));
    string_of(&t)
}

} // verus!

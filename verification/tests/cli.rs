use hope::cli::{mind_command, shell_command, spotlight_command, vault_command, voice_command};
use hope::cli::{MindCommand, ShellCommand, SpotlightCommand, VaultCommand, VoiceCommand};
use hope::voice::{arecord_args, parecord_args, piper_args, player_args, stt_from_probes, transcript, tts_from_probes, SttBackend, TtsBackend};

fn args(a: &[&str]) -> Vec<String> {
    a.iter().map(|s| s.to_string()).collect()
}

#[test]
fn program_commands() {
    assert_eq!(mind_command(&args(&["m", "status"])), MindCommand::Status);
    assert_eq!(mind_command(&args(&["m"])), MindCommand::Default);
    assert_eq!(mind_command(&args(&["m", "-v"])), MindCommand::Version);
    assert_eq!(shell_command(&args(&["s", "theme"])), ShellCommand::Theme);
    assert_eq!(vault_command(&args(&["v", "add", "mail"])), Ok(VaultCommand::Add("mail".into())));
    assert_eq!(vault_command(&args(&["v", "get"])), Err("Usage: hope-vault get <label>".into()));
    assert_eq!(vault_command(&args(&["v", "what"])), Ok(VaultCommand::Help));
    assert_eq!(voice_command(&args(&["v", "speak"])), VoiceCommand::Speak("Hello from Hope Voice".into()));
    assert_eq!(voice_command(&args(&["v", "speak", "hi"])), VoiceCommand::Speak("hi".into()));
    assert_eq!(spotlight_command(&args(&["s"])), SpotlightCommand::Help);
    assert_eq!(spotlight_command(&args(&["s", "45", "*", "12"])), SpotlightCommand::Search("45 * 12".into()));
    assert_eq!(spotlight_command(&args(&["s", "--version"])), SpotlightCommand::Version);
}

#[test]
fn voice_tools() {
    assert_eq!(arecord_args("/tmp/in.wav", 5), args(&["-f", "S16_LE", "-r", "16000", "-c", "1", "-d", "5", "/tmp/in.wav"]));
    assert_eq!(
        parecord_args("/tmp/in.wav", 5),
        args(&["--preserve-status", "--signal=INT", "5", "parecord", "--file-format=wav", "--rate=16000", "--channels=1", "/tmp/in.wav"])
    );
    assert_eq!(piper_args("hi"), args(&["--text", "hi", "--output_file", "/tmp/hope-voice-output.wav"]));
    assert_eq!(player_args("mpv", "f.wav"), args(&["--no-video", "f.wav"]));
    assert_eq!(player_args("aplay", "f.wav"), args(&["f.wav"]));
    assert_eq!(stt_from_probes(false, true), SttBackend::WhisperCpp);
    assert_eq!(tts_from_probes(false, false), TtsBackend::Unavailable);
    assert_eq!(TtsBackend::Unavailable.name(), "None");
    assert_eq!(transcript("  hello world \n"), "hello world");
}

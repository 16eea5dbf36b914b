//! Voice engines: the catalogue of supported engines, their status, and the
//! exact commands that speak a text or transcribe a recording.

use vstd::prelude::*;
use crate::error::{ErrorKind, ErrorView, ObError, err_of, res_view};
use crate::text::{chars_of, concat, eq_str, owned, replace_str, replaced, string_of, trim_chars, trimmed, views_of};

verus! {

/// The state of one voice engine on this machine.
pub struct VoiceEngineStatus {
    pub id: String,
    pub label: String,
    pub kind: String,
    pub available: bool,
    pub languages: String,
    pub detail: String,
}

/// The status of an engine: available engines read `AVAILABLE`, others
/// `REQUIRES CONFIGURATION`.
pub fn status(id: &str, label: &str, kind: &str, available: bool, languages: &str) -> (r: VoiceEngineStatus)
    ensures
        r.id@ == id@,
        r.label@ == label@,
        r.kind@ == kind@,
        r.available == available,
        r.languages@ == languages@,
        r.detail@ == (if available {
            "AVAILABLE"@
        } else {
            "REQUIRES CONFIGURATION"@
        }),
{
    VoiceEngineStatus {
        id: owned(id),
        label: owned(label),
        kind: owned(kind),
        available,
        languages: owned(languages),
        detail: if available {
            owned("AVAILABLE")
        } else {
            owned("REQUIRES CONFIGURATION")
        },
    }
}

/// How the presence of an engine is found out.
pub enum EngineProbe {
    /// An executable of this name on the search path.
    Executable(String),
    /// The speech synthesizer built into Windows.
    WindowsBuiltIn,
}

/// One supported engine.
pub struct EngineEntry {
    pub id: String,
    pub label: String,
    pub kind: String,
    pub probe: EngineProbe,
    pub languages: String,
}

fn entry(id: &str, label: &str, kind: &str, probe: EngineProbe, languages: &str) -> (r: EngineEntry)
    ensures
        r.id@ == id@,
        r.label@ == label@,
        r.kind@ == kind@,
        r.probe == probe,
        r.languages@ == languages@,
{
    EngineEntry { id: owned(id), label: owned(label), kind: owned(kind), probe, languages: owned(languages) }
}

/// The identifiers of the supported engines, in the order they are listed.
pub open spec fn engine_ids() -> Seq<Seq<char>> {
    seq![
        "piper"@,
        "windows-sapi"@,
        "coqui"@,
        "kokoro"@,
        "espeak-ng"@,
        "whisper"@,
        "faster-whisper"@,
        "vosk"@,
    ]
}

/// The display names of the supported engines, in order.
pub open spec fn engine_labels() -> Seq<Seq<char>> {
    seq![
        "Piper"@,
        "Windows SAPI"@,
        "Coqui-compatible TTS"@,
        "Kokoro-compatible TTS"@,
        "eSpeak NG"@,
        "Whisper"@,
        "faster-whisper"@,
        "Vosk-compatible"@,
    ]
}

/// The kind of each supported engine: the first five speak (`tts`), the
/// last three transcribe (`stt`).
pub open spec fn engine_kinds() -> Seq<Seq<char>> {
    seq!["tts"@, "tts"@, "tts"@, "tts"@, "tts"@, "stt"@, "stt"@, "stt"@]
}

/// The executable probed for each engine; `None` for the synthesizer built into Windows.
pub open spec fn engine_probes() -> Seq<Option<Seq<char>>> {
    seq![
        Some("piper"@),
        None,
        Some("tts"@),
        Some("kokoro-tts"@),
        Some("espeak-ng"@),
        Some("whisper"@),
        Some("faster-whisper"@),
        Some("vosk-transcriber"@),
    ]
}

/// The languages shown for each engine.
pub open spec fn engine_languages() -> Seq<Seq<char>> {
    seq![
        "Model dependent"@,
        "Installed Windows voices"@,
        "Model dependent"@,
        "Model dependent"@,
        "Engine dependent"@,
        "Model dependent"@,
        "Model dependent"@,
        "Model dependent"@,
    ]
}

/// The executable a probe looks for, if any.
pub open spec fn probe_view(p: EngineProbe) -> Option<Seq<char>> {
    match p {
        EngineProbe::Executable(name) => Some(name@),
        EngineProbe::WindowsBuiltIn => None,
    }
}

/// The supported speech engines: five for speaking, three for transcription.
pub fn engine_catalog() -> (r: Vec<EngineEntry>)
    ensures
        r@.len() == 8,
        forall|i: int|
            0 <= i < 8 ==> {
                &&& (#[trigger] r@[i]).id@ == engine_ids()[i]
                &&& r@[i].label@ == engine_labels()[i]
                &&& r@[i].kind@ == engine_kinds()[i]
                &&& probe_view(r@[i].probe) == engine_probes()[i]
                &&& r@[i].languages@ == engine_languages()[i]
            },
{
    let mut v: Vec<EngineEntry> = Vec::new();
    v.push(entry("piper", "Piper", "tts", EngineProbe::Executable(owned("piper")), "Model dependent"));
    v.push(entry("windows-sapi", "Windows SAPI", "tts", EngineProbe::WindowsBuiltIn, "Installed Windows voices"));
    v.push(entry("coqui", "Coqui-compatible TTS", "tts", EngineProbe::Executable(owned("tts")), "Model dependent"));
    v.push(entry("kokoro", "Kokoro-compatible TTS", "tts", EngineProbe::Executable(owned("kokoro-tts")), "Model dependent"));
    v.push(entry("espeak-ng", "eSpeak NG", "tts", EngineProbe::Executable(owned("espeak-ng")), "Engine dependent"));
    v.push(entry("whisper", "Whisper", "stt", EngineProbe::Executable(owned("whisper")), "Model dependent"));
    v.push(entry("faster-whisper", "faster-whisper", "stt", EngineProbe::Executable(owned("faster-whisper")), "Model dependent"));
    v.push(entry("vosk", "Vosk-compatible", "stt", EngineProbe::Executable(owned("vosk-transcriber")), "Model dependent"));
    v
}

/// A program to run with its arguments.
#[derive(Debug)]
pub struct ProgramCall {
    pub program: String,
    pub args: Vec<String>,
}

/// A text placed inside single quotes for PowerShell: each quote doubled.
pub open spec fn ps_quoted(s: Seq<char>) -> Seq<char> {
    replaced(s, "'"@, "''"@)
}

/// The PowerShell script that speaks `text` with the Windows synthesizer,
/// selecting `voice` first when one is given.
pub open spec fn sapi_script(text: Seq<char>, voice: Option<Seq<char>>) -> Seq<char> {
    let select = match voice {
        Some(v) => "$s.SelectVoice('"@ + ps_quoted(v) + "');"@,
        None => Seq::empty(),
    };
    "Add-Type -AssemblyName System.Speech; $s=New-Object System.Speech.Synthesis.SpeechSynthesizer; "@
        + select + " $s.Speak('"@ + ps_quoted(text) + "')"@
}

/// The first status in the list with this identifier.
pub open spec fn status_named(statuses: Seq<VoiceEngineStatus>, engine: Seq<char>) -> Option<int> {
    crate::text::first_index(statuses.len() as int, |k: int| statuses[k].id@ == engine)
}

/// What speaking a text does: refuse empty text and unknown or missing
/// engines; speak with Windows SAPI through PowerShell or with eSpeak NG;
/// other engines need a model path first.
pub open spec fn speech_plan(
    engine: Seq<char>,
    text: Seq<char>,
    voice: Option<Seq<char>>,
    statuses: Seq<VoiceEngineStatus>,
) -> Result<(Seq<char>, Seq<Seq<char>>), ErrorView> {
    if trimmed(text).len() == 0 {
        Err(err_of(ErrorKind::Validation, "Speech text is empty"@))
    } else {
        match status_named(statuses, engine) {
            None => Err(err_of(ErrorKind::Validation, "Unknown voice engine"@)),
            Some(k) => if !statuses[k].available {
                Err(err_of(ErrorKind::RequiresConfiguration, statuses[k].label@ + " is not installed"@))
            } else if engine == "windows-sapi"@ {
                Ok(
                    (
                        "powershell.exe"@,
                        seq!["-NoProfile"@, "-NonInteractive"@, "-Command"@, sapi_script(text, voice)],
                    ),
                )
            } else if engine == "espeak-ng"@ {
                Ok(("espeak-ng"@, seq![text]))
            } else {
                Err(
                    err_of(
                        ErrorKind::RequiresConfiguration,
                        "This engine requires a model path configured in Voice settings"@,
                    ),
                )
            },
        }
    }
}

/// The view of a planned call.
pub open spec fn call_view(r: Result<ProgramCall, ObError>) -> Result<(Seq<char>, Seq<Seq<char>>), ErrorView> {
    match r {
        Ok(c) => Ok((c.program@, views_of(c.args@))),
        Err(e) => Err(e@),
    }
}

/// Quotes a text for a single-quoted PowerShell string.
pub fn quote_for_powershell(s: &str) -> (r: String)
    ensures
        r@ == ps_quoted(s@),
{
    proof {
        reveal_strlit("'");
    }
    let c = chars_of(s);
    let q = replace_str(&c, "'", "''");
    string_of(&q)
}

fn sapi_script_exec(text: &str, voice: Option<&str>) -> (r: String)
    ensures
        r@ == sapi_script(
            text@,
            match voice {
                Some(v) => Some(v@),
                None => None,
            },
        ),
{
    let select = match voice {
        Some(v) => {
            let q = quote_for_powershell(v);
            let a = concat("$s.SelectVoice('", q.as_str());
            concat(a.as_str(), "');")
        },
        None => String::new(),
    };
    let head = concat(
        "Add-Type -AssemblyName System.Speech; $s=New-Object System.Speech.Synthesis.SpeechSynthesizer; ",
        select.as_str(),
    );
    let q = quote_for_powershell(text);
    let a = concat(head.as_str(), " $s.Speak('");
    let b = concat(a.as_str(), q.as_str());
    concat(b.as_str(), "')")
}

fn find_status(statuses: &Vec<VoiceEngineStatus>, engine: &str) -> (r: Option<usize>)
    ensures
        r matches Some(k) ==> k < statuses@.len() && status_named(statuses@, engine@) == Some(k as int),
        r is None ==> status_named(statuses@, engine@) is None,
{
    let want = chars_of(engine);
    let ghost p = |k: int| statuses@[k].id@ == engine@;
    let mut i: usize = 0;
    while i < statuses.len()
        invariant
            i <= statuses.len(),
            want@ == engine@,
            p == (|k: int| statuses@[k].id@ == engine@),
            forall|j: int| 0 <= j < i ==> !#[trigger] p(j),
        decreases statuses.len() - i,
    {
        let have = chars_of(statuses[i].id.as_str());
        if crate::text::same_chars(&have, &want) {
            proof {
                crate::text::lemma_first_index_is(statuses@.len() as int, p, i as int);
            }
            return Some(i);
        }
        i = i + 1;
    }
    proof {
        crate::text::lemma_first_index_none(statuses@.len() as int, p);
    }
    None
}

/// The program that speaks `text` with `engine`, given the engines' statuses.
pub fn plan_speech(engine: &str, text: &str, voice: Option<&str>, statuses: &Vec<VoiceEngineStatus>) -> (r: Result<ProgramCall, ObError>)
    ensures
        call_view(r) == speech_plan(
            engine@,
            text@,
            match voice {
                Some(v) => Some(v@),
                None => None,
            },
            statuses@,
        ),
{
    let t = chars_of(text);
    let tt = trim_chars(&t);
    if tt.len() == 0 {
        return Err(ObError::Validation(owned("Speech text is empty")));
    }
    let k = match find_status(statuses, engine) {
        Some(k) => k,
        None => return Err(ObError::Validation(owned("Unknown voice engine"))),
    };
    if !statuses[k].available {
        return Err(ObError::RequiresConfiguration(concat(statuses[k].label.as_str(), " is not installed")));
    }
    let e = chars_of(engine);
    if eq_str(&e, "windows-sapi") {
        let mut args: Vec<String> = Vec::new();
        args.push(owned("-NoProfile"));
        args.push(owned("-NonInteractive"));
        args.push(owned("-Command"));
        args.push(sapi_script_exec(text, voice));
        let r = ProgramCall { program: owned("powershell.exe"), args };
        assert(views_of(r.args@) =~= seq!["-NoProfile"@, "-NonInteractive"@, "-Command"@, r.args@[3]@]);
        Ok(r)
    } else if eq_str(&e, "espeak-ng") {
        let mut args: Vec<String> = Vec::new();
        args.push(owned(text));
        let r = ProgramCall { program: owned("espeak-ng"), args };
        assert(views_of(r.args@) =~= seq![text@]);
        Ok(r)
    } else {
        Err(ObError::RequiresConfiguration(owned("This engine requires a model path configured in Voice settings")))
    }
}

/// The error for a speech engine that exited with a failure status.
pub fn speech_failed() -> (e: ObError)
    ensures
        e@ == err_of(ErrorKind::Unavailable, "Voice engine returned a failure status"@),
{
    ObError::Unavailable(owned("Voice engine returned a failure status"))
}

/// The executable of a transcription engine.
pub open spec fn transcriber_spec(engine: Seq<char>) -> Option<Seq<char>> {
    if engine == "whisper"@ {
        Some("whisper"@)
    } else if engine == "faster-whisper"@ {
        Some("faster-whisper"@)
    } else if engine == "vosk"@ {
        Some("vosk-transcriber"@)
    } else {
        None
    }
}

/// What transcribing a recording does: refuse a missing recording or an
/// unknown engine, then run the engine on the recording, with
/// `--language` when one is given.
pub open spec fn transcription_plan(
    engine: Seq<char>,
    audio: Seq<char>,
    audio_exists: bool,
    language: Option<Seq<char>>,
) -> Result<(Seq<char>, Seq<Seq<char>>), ErrorView> {
    if !audio_exists {
        Err(err_of(ErrorKind::Validation, "Audio file does not exist"@))
    } else {
        match transcriber_spec(engine) {
            None => Err(err_of(ErrorKind::Validation, "Unknown speech recognition engine"@)),
            Some(exe) => Ok(
                (
                    exe,
                    match language {
                        Some(l) => seq![audio, "--language"@, l],
                        None => seq![audio],
                    },
                ),
            ),
        }
    }
}

/// The program that transcribes `audio` with `engine`.
pub fn plan_transcription(engine: &str, audio: &str, audio_exists: bool, language: Option<&str>) -> (r: Result<ProgramCall, ObError>)
    ensures
        call_view(r) == transcription_plan(
            engine@,
            audio@,
            audio_exists,
            match language {
                Some(l) => Some(l@),
                None => None,
            },
        ),
{
    if !audio_exists {
        return Err(ObError::Validation(owned("Audio file does not exist")));
    }
    let e = chars_of(engine);
    let exe = if eq_str(&e, "whisper") {
        owned("whisper")
    } else if eq_str(&e, "faster-whisper") {
        owned("faster-whisper")
    } else if eq_str(&e, "vosk") {
        owned("vosk-transcriber")
    } else {
        return Err(ObError::Validation(owned("Unknown speech recognition engine")));
    };
    let mut args: Vec<String> = Vec::new();
    args.push(owned(audio));
    match language {
        Some(l) => {
            args.push(owned("--language"));
            args.push(owned(l));
            assert(views_of(args@) =~= seq![audio@, "--language"@, l@]);
        },
        None => {
            assert(views_of(args@) =~= seq![audio@]);
        },
    }
    Ok(ProgramCall { program: exe, args })
}

/// The error for a transcription engine that is not installed.
pub fn transcriber_missing(executable: &str) -> (e: ObError)
    ensures
        e@ == err_of(ErrorKind::RequiresConfiguration, executable@ + " is not installed"@),
{
    ObError::RequiresConfiguration(concat(executable, " is not installed"))
}

/// A quoted text read back: each doubled quote becomes one quote.
pub open spec fn ps_unquoted(s: Seq<char>) -> Seq<char> {
    replaced(s, "''"@, "'"@)
}

proof fn lemma_quote_roundtrip(s: Seq<char>)
    ensures
        ps_unquoted(ps_quoted(s)) == s,
    decreases s.len(),
{
    reveal_strlit("'");
    reveal_strlit("''");
    let q = "'"@;
    let qq = "''"@;
    if s.len() == 0 {
    } else {
        let rest = s.subrange(1, s.len() as int);
        lemma_quote_roundtrip(rest);
        assert(s.subrange(0, 1) =~= seq![s[0]]);
        if s[0] == '\'' {
            assert(s.subrange(0, 1) == q);
            assert(ps_quoted(s) == qq + ps_quoted(rest));
            let t = qq + ps_quoted(rest);
            assert(t.subrange(0, 2) =~= qq);
            assert(t.subrange(2, t.len() as int) =~= ps_quoted(rest));
            assert(ps_unquoted(t) == q + ps_unquoted(ps_quoted(rest)));
            assert(q + rest =~= s);
        } else {
            assert(s.subrange(0, 1) != q) by {
                assert(q[0] == '\'');
                assert(s.subrange(0, 1)[0] == s[0]);
            }
            assert(ps_quoted(s) == seq![s[0]] + ps_quoted(rest));
            let t = seq![s[0]] + ps_quoted(rest);
            assert(t.subrange(1, t.len() as int) =~= ps_quoted(rest));
            assert(t[0] == s[0]);
            if t.len() >= 2 {
                assert(t.subrange(0, 2) != qq) by {
                    assert(qq[0] == '\'');
                    assert(t.subrange(0, 2)[0] == s[0]);
                }
            }
            assert(ps_unquoted(t) == seq![s[0]] + ps_unquoted(ps_quoted(rest)));
            assert(seq![s[0]] + rest =~= s);
        }
    }
}

/// Quoting for PowerShell loses nothing: reading a quoted text back gives
/// the text, so a spoken text cannot end the quoted string early.
pub proof fn law_powershell_quoting_roundtrip(s: Seq<char>)
    ensures
        ps_unquoted(ps_quoted(s)) == s,
{
    lemma_quote_roundtrip(s);
}

} // verus!

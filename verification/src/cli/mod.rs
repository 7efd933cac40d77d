//! The command line: what was asked for, and what is printed.
use vstd::prelude::*;

use crate::text::{
    join, joined, joining_keeps_all_parts, text_eq, trim, trimmed, trimming_finds_the_middle, views,
    white_space,
};

pub mod audio;
pub mod demo;
pub mod render;
pub mod smoke;

verus! {

/// The commands.
#[derive(Debug, Clone, Copy, PartialEq, Eq, Structural)]
pub enum CliCommand {
    Chat,
    VoiceFake,
    DeepgramTtsSmoke,
    DeepgramSttFile,
    DeepgramLoopbackSmoke,
    LivekitTokenSmoke,
    VoiceLivekit,
    Help,
}

/// The command of a name.
pub open spec fn command_named(name: Seq<char>) -> Option<CliCommand> {
    if name == "chat"@ {
        Some(CliCommand::Chat)
    } else if name == "voice-fake"@ {
        Some(CliCommand::VoiceFake)
    } else if name == "deepgram-tts-smoke"@ {
        Some(CliCommand::DeepgramTtsSmoke)
    } else if name == "deepgram-stt-file"@ {
        Some(CliCommand::DeepgramSttFile)
    } else if name == "deepgram-loopback-smoke"@ {
        Some(CliCommand::DeepgramLoopbackSmoke)
    } else if name == "livekit-token-smoke"@ {
        Some(CliCommand::LivekitTokenSmoke)
    } else if name == "voice-livekit"@ {
        Some(CliCommand::VoiceLivekit)
    } else if name == "-h"@ || name == "--help"@ || name == "help"@ {
        Some(CliCommand::Help)
    } else {
        None
    }
}

/// The command of a name; without a name, help. The error says which name is none.
pub fn parse_command(name: Option<String>) -> (command: Result<CliCommand, String>)
    ensures
        match name {
            None => command == Result::<CliCommand, String>::Ok(CliCommand::Help),
            Some(name) => match command_named(name@) {
                Some(named) => command == Result::<CliCommand, String>::Ok(named),
                None => command is Err && command->Err_0@ == "unknown command: "@ + name@,
            },
        },
{
    let name = match name {
        Some(name) => name,
        None => {
            return Ok(CliCommand::Help);
        },
    };
    let text = name.as_str();
    if text_eq(text, "chat") {
        Ok(CliCommand::Chat)
    } else if text_eq(text, "voice-fake") {
        Ok(CliCommand::VoiceFake)
    } else if text_eq(text, "deepgram-tts-smoke") {
        Ok(CliCommand::DeepgramTtsSmoke)
    } else if text_eq(text, "deepgram-stt-file") {
        Ok(CliCommand::DeepgramSttFile)
    } else if text_eq(text, "deepgram-loopback-smoke") {
        Ok(CliCommand::DeepgramLoopbackSmoke)
    } else if text_eq(text, "livekit-token-smoke") {
        Ok(CliCommand::LivekitTokenSmoke)
    } else if text_eq(text, "voice-livekit") {
        Ok(CliCommand::VoiceLivekit)
    } else if text_eq(text, "-h") || text_eq(text, "--help") || text_eq(text, "help") {
        Ok(CliCommand::Help)
    } else {
        Err("unknown command: ".to_owned().concat(text))
    }
}

/// What a command's arguments ask for: to run it, to explain it, or something that it does not know.
#[derive(Debug, PartialEq, Eq)]
pub enum CliArgs<T> {
    Run(T),
    Help,
    Invalid(String),
}

#[verifier::ext_equal]
pub enum CliArgsView<V> {
    Run(V),
    Help,
    Invalid(Seq<char>),
}

impl<T: View> View for CliArgs<T> {
    type V = CliArgsView<T::V>;

    open spec fn view(&self) -> CliArgsView<T::V> {
        match self {
            CliArgs::Run(value) => CliArgsView::Run(value@),
            CliArgs::Help => CliArgsView::Help,
            CliArgs::Invalid(message) => CliArgsView::Invalid(message@),
        }
    }
}

/// Whether an argument asks for help.
pub open spec fn asks_for_help(arg: Seq<char>) -> bool {
    arg == "-h"@ || arg == "--help"@
}

fn is_help(arg: &str) -> (help: bool)
    ensures
        help == asks_for_help(arg@),
{
    text_eq(arg, "-h") || text_eq(arg, "--help")
}

/// What arguments that switch tools on and off come to: the last switch counts, and the first
/// argument that is none decides.
pub open spec fn tool_switches(args: Seq<Seq<char>>, enabled: bool, fault: Seq<char>) ->
    CliArgsView<bool>
    decreases args.len(),
{
    if args.len() == 0 {
        CliArgsView::Run(enabled)
    } else if args[0] == "--tools"@ {
        tool_switches(args.drop_first(), true, fault)
    } else if args[0] == "--no-tools"@ {
        tool_switches(args.drop_first(), false, fault)
    } else if asks_for_help(args[0]) {
        CliArgsView::Help
    } else {
        CliArgsView::Invalid(fault + args[0])
    }
}

fn parse_tool_switches(args: &Vec<String>, fault: &str) -> (parsed: CliArgs<bool>)
    ensures
        parsed@ == tool_switches(views(args@), false, fault@),
{
    let ghost all = views(args@);
    let mut enabled = false;
    let mut i: usize = 0;
    assert(all.skip(0) =~= all);
    while i < args.len()
        invariant
            i <= args@.len(),
            all == views(args@),
            tool_switches(all, false, fault@) == tool_switches(
                all.skip(i as int),
                enabled,
                fault@,
            ),
        decreases args@.len() - i,
    {
        let arg = args[i].as_str();
        assert(all.skip(i as int)[0] == arg@);
        assert(all.skip(i as int).drop_first() =~= all.skip(i + 1));
        if text_eq(arg, "--tools") {
            enabled = true;
        } else if text_eq(arg, "--no-tools") {
            enabled = false;
        } else if is_help(arg) {
            return CliArgs::Help;
        } else {
            return CliArgs::Invalid(fault.to_owned().concat(arg));
        }
        i = i + 1;
    }
    CliArgs::Run(enabled)
}

/// Whether `chat` has tools.
pub fn parse_chat_args(args: &Vec<String>) -> (parsed: CliArgs<bool>)
    ensures
        parsed@ == tool_switches(views(args@), false, "unknown chat option: "@),
{
    parse_tool_switches(args, "unknown chat option: ")
}

/// Whether `voice-livekit` has tools.
pub fn parse_voice_livekit_args(args: &Vec<String>) -> (parsed: CliArgs<bool>)
    ensures
        parsed@ == tool_switches(views(args@), false, "unknown voice-livekit option: "@),
{
    parse_tool_switches(args, "unknown voice-livekit option: ")
}

/// What the arguments of a command without options come to.
pub open spec fn no_options(args: Seq<Seq<char>>, fault: Seq<char>) -> CliArgsView<()> {
    if args.len() == 0 {
        CliArgsView::Run(())
    } else if asks_for_help(args[0]) {
        CliArgsView::Help
    } else {
        CliArgsView::Invalid(fault + args[0])
    }
}

fn parse_no_options(args: &Vec<String>, fault: &str) -> (parsed: CliArgs<()>)
    ensures
        parsed@ == no_options(views(args@), fault@),
{
    if args.len() == 0 {
        return CliArgs::Run(());
    }
    let arg = args[0].as_str();
    assert(views(args@)[0] == arg@);
    if is_help(arg) {
        CliArgs::Help
    } else {
        CliArgs::Invalid(fault.to_owned().concat(arg))
    }
}

pub fn parse_voice_fake_args(args: &Vec<String>) -> (parsed: CliArgs<()>)
    ensures
        parsed@ == no_options(views(args@), "unknown voice-fake option: "@),
{
    parse_no_options(args, "unknown voice-fake option: ")
}

pub fn parse_livekit_token_smoke_args(args: &Vec<String>) -> (parsed: CliArgs<()>)
    ensures
        parsed@ == no_options(views(args@), "unknown livekit-token-smoke option: "@),
{
    parse_no_options(args, "unknown livekit-token-smoke option: ")
}

/// Whether one of the arguments asks for help.
pub open spec fn any_help(args: Seq<Seq<char>>) -> bool {
    exists|i: int| 0 <= i < args.len() && asks_for_help(#[trigger] args[i])
}

fn has_help(args: &Vec<String>) -> (help: bool)
    ensures
        help == any_help(views(args@)),
{
    let ghost all = views(args@);
    let mut i: usize = 0;
    while i < args.len()
        invariant
            i <= args@.len(),
            all == views(args@),
            forall|j: int| 0 <= j < i ==> !asks_for_help(#[trigger] all[j]),
        decreases args@.len() - i,
    {
        assert(all[i as int] == args@[i as int]@);
        if is_help(args[i].as_str()) {
            return true;
        }
        i = i + 1;
    }
    false
}

/// What arguments that are words of a text come to.
pub open spec fn words_or(args: Seq<Seq<char>>, default: Seq<char>) -> CliArgsView<Seq<char>> {
    if any_help(args) {
        CliArgsView::Help
    } else if args.len() == 0 {
        CliArgsView::Run(default)
    } else {
        CliArgsView::Run(joined(args, " "@))
    }
}

fn parse_words(args: &Vec<String>, default: &str) -> (parsed: CliArgs<String>)
    ensures
        parsed@ == words_or(views(args@), default@),
{
    if has_help(args) {
        CliArgs::Help
    } else if args.len() == 0 {
        CliArgs::Run(default.to_owned())
    } else {
        CliArgs::Run(join(args, " "))
    }
}

/// The text to speak.
pub fn parse_deepgram_tts_smoke_args(args: &Vec<String>) -> (parsed: CliArgs<String>)
    ensures
        parsed@ == words_or(views(args@), "Hello from the Deepgram TTS smoke test."@),
{
    parse_words(args, "Hello from the Deepgram TTS smoke test.")
}

/// The text to speak and to transcribe.
pub fn parse_deepgram_loopback_smoke_args(args: &Vec<String>) -> (parsed: CliArgs<String>)
    ensures
        parsed@ == words_or(views(args@), "Hello from the Deepgram loopback smoke test."@),
{
    parse_words(args, "Hello from the Deepgram loopback smoke test.")
}

/// The file to transcribe: there is exactly one.
pub fn parse_deepgram_stt_file_args(args: &Vec<String>) -> (parsed: CliArgs<String>)
    ensures
        parsed@ == if any_help(views(args@)) {
            CliArgsView::Help
        } else if args@.len() == 1 {
            CliArgsView::Run(args@[0]@)
        } else {
            CliArgsView::Invalid(
                "usage: ai-runtime deepgram-stt-file <raw-16khz-mono-linear16-pcm-file>"@,
            )
        },
{
    if has_help(args) {
        CliArgs::Help
    } else if args.len() == 1 {
        CliArgs::Run(args[0].clone())
    } else {
        CliArgs::Invalid(
            "usage: ai-runtime deepgram-stt-file <raw-16khz-mono-linear16-pcm-file>".to_owned(),
        )
    }
}

/// What a line that was typed asks for.
#[derive(Debug, PartialEq, Eq)]
pub enum TypedLine {
    /// Nothing: it is white space alone.
    Skip,
    /// To stop.
    Stop,
    /// To take this up.
    Say(String),
}

#[verifier::ext_equal]
pub enum TypedLineView {
    Skip,
    Stop,
    Say(Seq<char>),
}

impl View for TypedLine {
    type V = TypedLineView;

    open spec fn view(&self) -> TypedLineView {
        match self {
            TypedLine::Skip => TypedLineView::Skip,
            TypedLine::Stop => TypedLineView::Stop,
            TypedLine::Say(text) => TypedLineView::Say(text@),
        }
    }
}

/// What a line that was typed asks for; `None` is the end of the input.
pub open spec fn typed(line: Option<Seq<char>>) -> TypedLineView {
    match line {
        None => TypedLineView::Stop,
        Some(line) => {
            let text = trimmed(line);
            if text.len() == 0 {
                TypedLineView::Skip
            } else if text == "exit"@ || text == "quit"@ {
                TypedLineView::Stop
            } else {
                TypedLineView::Say(text)
            }
        },
    }
}

/// What a line that was typed asks for; `None` is the end of the input.
pub fn read_typed_line(line: Option<String>) -> (read: TypedLine)
    ensures
        read@ == typed(crate::text::opt_view(line)),
{
    match line {
        None => TypedLine::Stop,
        Some(line) => {
            let text = trim(line.as_str());
            if text.as_str().is_empty() {
                TypedLine::Skip
            } else if text_eq(text.as_str(), "exit") || text_eq(text.as_str(), "quit") {
                TypedLine::Stop
            } else {
                TypedLine::Say(text)
            }
        },
    }
}

/// What the environment gives a chat: the key, the address and the model of its provider.
#[derive(Debug)]
pub struct ProviderEnv {
    pub api_key: Option<String>,
    pub base_url: Option<String>,
    pub model: Option<String>,
}

/// The provider of a chat.
#[derive(Debug)]
pub struct ProviderSettings {
    pub api_key: String,
    pub base_url: String,
    pub model: String,
}

fn text_or(value: Option<String>, default: &str) -> (text: String)
    ensures
        text@ == (match value {
            Some(value) => value@,
            None => default@,
        }),
{
    match value {
        Some(value) => value,
        None => default.to_owned(),
    }
}

/// The provider of a command: a key is needed; the address and the model have defaults.
pub fn provider_settings(env: ProviderEnv, command: &str) -> (settings: Result<
    ProviderSettings,
    String,
>)
    ensures
        match env.api_key {
            None => settings is Err && settings->Err_0@
                == "OPENAI_COMPAT_API_KEY must be set to run `ai-runtime "@ + command@ + "`"@,
            Some(api_key) => {
                &&& settings is Ok
                &&& settings->Ok_0.api_key@ == api_key@
                &&& settings->Ok_0.base_url@ == (match env.base_url {
                    Some(url) => url@,
                    None => "https://api.openai.com/v1"@,
                })
                &&& settings->Ok_0.model@ == (match env.model {
                    Some(model) => model@,
                    None => "gpt-4o-mini"@,
                })
            },
        },
{
    match env.api_key {
        None => Err(
            "OPENAI_COMPAT_API_KEY must be set to run `ai-runtime ".to_owned().concat(
                command,
            ).concat("`"),
        ),
        Some(api_key) => Ok(
            ProviderSettings {
                api_key,
                base_url: text_or(env.base_url, "https://api.openai.com/v1"),
                model: text_or(env.model, "gpt-4o-mini"),
            },
        ),
    }
}

/// What explains all commands.
pub fn usage() -> (text: String)
    ensures
        text@
            == "usage:\n  ai-runtime chat [--tools|--no-tools]\n  ai-runtime voice-fake\n  ai-runtime deepgram-tts-smoke [text]\n  ai-runtime deepgram-stt-file <raw-16khz-mono-linear16-pcm-file>\n  ai-runtime deepgram-loopback-smoke [text]\n  ai-runtime livekit-token-smoke\n  ai-runtime voice-livekit [--tools|--no-tools]\nenv for chat: OPENAI_COMPAT_API_KEY, OPENAI_COMPAT_MODEL, OPENAI_COMPAT_BASE_URL\nenv for Deepgram: DEEPGRAM_API_KEY, DEEPGRAM_LISTEN_URL, DEEPGRAM_SPEAK_URL\nenv for LiveKit: LIVEKIT_URL, LIVEKIT_API_KEY, LIVEKIT_API_SECRET\n"@,
{
    "usage:\n  ai-runtime chat [--tools|--no-tools]\n  ai-runtime voice-fake\n  ai-runtime deepgram-tts-smoke [text]\n  ai-runtime deepgram-stt-file <raw-16khz-mono-linear16-pcm-file>\n  ai-runtime deepgram-loopback-smoke [text]\n  ai-runtime livekit-token-smoke\n  ai-runtime voice-livekit [--tools|--no-tools]\nenv for chat: OPENAI_COMPAT_API_KEY, OPENAI_COMPAT_MODEL, OPENAI_COMPAT_BASE_URL\nenv for Deepgram: DEEPGRAM_API_KEY, DEEPGRAM_LISTEN_URL, DEEPGRAM_SPEAK_URL\nenv for LiveKit: LIVEKIT_URL, LIVEKIT_API_KEY, LIVEKIT_API_SECRET\n".to_owned()
}

/// What explains a command.
pub open spec fn command_usage_text(command: CliCommand) -> Seq<char> {
    match command {
        CliCommand::Chat => {
            "usage: ai-runtime chat [--tools|--no-tools]\n  --tools     register calculator and mock_crm_lookup demo tools\n  --no-tools  run LLM-only chat (default)\n"@
        },
        CliCommand::VoiceFake => {
            "usage: ai-runtime voice-fake\n  Runs typed text through fake audio, fake STT, deterministic LLM tokens, and fake TTS.\n"@
        },
        CliCommand::DeepgramTtsSmoke => {
            "usage: ai-runtime deepgram-tts-smoke [text]\n  Streams Deepgram Aura-2 TTS audio and prints chunk sizes.\n"@
        },
        CliCommand::DeepgramSttFile => {
            "usage: ai-runtime deepgram-stt-file <raw-16khz-mono-linear16-pcm-file>\n  Streams raw PCM bytes into Deepgram STT and prints transcript events.\n"@
        },
        CliCommand::DeepgramLoopbackSmoke => {
            "usage: ai-runtime deepgram-loopback-smoke [text]\n  Synthesizes 16kHz linear16 audio with Deepgram TTS, then transcribes it with Deepgram STT.\n"@
        },
        CliCommand::LivekitTokenSmoke => {
            "usage: ai-runtime livekit-token-smoke\n  Loads LiveKit env vars and generates a room join token without printing the token.\n"@
        },
        CliCommand::VoiceLivekit => {
            "usage: ai-runtime voice-livekit [--tools|--no-tools]\n  Runs LiveKit audio transport with Deepgram STT/TTS and the OpenAI-compatible LLM provider.\n  Build with: cargo run --features livekit-transport -- voice-livekit\n"@
        },
        CliCommand::Help => Seq::empty(),
    }
}

/// What explains a command; help itself has no explanation.
pub fn command_usage(command: CliCommand) -> (text: String)
    ensures
        text@ == command_usage_text(command),
{
    match command {
        CliCommand::Chat => {
            "usage: ai-runtime chat [--tools|--no-tools]\n  --tools     register calculator and mock_crm_lookup demo tools\n  --no-tools  run LLM-only chat (default)\n".to_owned()
        },
        CliCommand::VoiceFake => {
            "usage: ai-runtime voice-fake\n  Runs typed text through fake audio, fake STT, deterministic LLM tokens, and fake TTS.\n".to_owned()
        },
        CliCommand::DeepgramTtsSmoke => {
            "usage: ai-runtime deepgram-tts-smoke [text]\n  Streams Deepgram Aura-2 TTS audio and prints chunk sizes.\n".to_owned()
        },
        CliCommand::DeepgramSttFile => {
            "usage: ai-runtime deepgram-stt-file <raw-16khz-mono-linear16-pcm-file>\n  Streams raw PCM bytes into Deepgram STT and prints transcript events.\n".to_owned()
        },
        CliCommand::DeepgramLoopbackSmoke => {
            "usage: ai-runtime deepgram-loopback-smoke [text]\n  Synthesizes 16kHz linear16 audio with Deepgram TTS, then transcribes it with Deepgram STT.\n".to_owned()
        },
        CliCommand::LivekitTokenSmoke => {
            "usage: ai-runtime livekit-token-smoke\n  Loads LiveKit env vars and generates a room join token without printing the token.\n".to_owned()
        },
        CliCommand::VoiceLivekit => {
            "usage: ai-runtime voice-livekit [--tools|--no-tools]\n  Runs LiveKit audio transport with Deepgram STT/TTS and the OpenAI-compatible LLM provider.\n  Build with: cargo run --features livekit-transport -- voice-livekit\n".to_owned()
        },
        CliCommand::Help => {
            let text = String::new();
            assert(text@ =~= Seq::empty());
            text
        },
    }
}

/// Of arguments that switch tools the last one counts; without any, tools stay as they were. The
/// first argument that is no switch decides, whatever follows it: it asks for help, or is told to be
/// unknown.
pub proof fn the_last_switch_counts(
    switches: Seq<Seq<char>>,
    other: Seq<char>,
    later: Seq<Seq<char>>,
    enabled: bool,
    fault: Seq<char>,
)
    requires
        forall|i: int|
            0 <= i < switches.len() ==> #[trigger] switches[i] == "--tools"@ || switches[i]
                == "--no-tools"@,
        other != "--tools"@ && other != "--no-tools"@,
    ensures
        tool_switches(switches, enabled, fault) == CliArgsView::Run(
            if switches.len() > 0 {
                switches.last() == "--tools"@
            } else {
                enabled
            },
        ),
        tool_switches(switches.push(other) + later, enabled, fault) == if other == "-h"@ || other
            == "--help"@ {
            CliArgsView::<bool>::Help
        } else {
            CliArgsView::Invalid(fault + other)
        },
    decreases switches.len(),
{
    let all = switches.push(other) + later;
    if switches.len() == 0 {
        assert(all[0] == other);
    } else {
        let rest = switches.drop_first();
        assert(switches[0] == "--tools"@ || switches[0] == "--no-tools"@);
        reveal_strlit("--tools");
        reveal_strlit("--no-tools");
        assert("--tools"@.len() != "--no-tools"@.len());
        assert forall|i: int| 0 <= i < rest.len() implies #[trigger] rest[i] == "--tools"@
            || rest[i] == "--no-tools"@ by {
            assert(switches[i + 1] == "--tools"@ || switches[i + 1] == "--no-tools"@);
        }
        the_last_switch_counts(rest, other, later, switches[0] == "--tools"@, fault);
        assert(all[0] == switches[0]);
        assert(all.drop_first() =~= rest.push(other) + later);
        if rest.len() > 0 {
            assert(rest.last() == switches.last());
        }
    }
}

/// Help is given wherever it is asked for among words, and otherwise the words are taken with a
/// space between any two, or the default where there are none.
pub proof fn words_are_taken_together(
    words: Seq<Seq<char>>,
    more: Seq<Seq<char>>,
    default: Seq<char>,
)
    requires
        words.len() > 0,
        more.len() > 0,
        !any_help(words),
        !any_help(more),
    ensures
        words_or(Seq::empty(), default) == CliArgsView::Run(default),
        words_or(words + more, default) == CliArgsView::Run(
            words_or(words, default)->Run_0 + " "@ + words_or(more, default)->Run_0,
        ),
        words.len() == 1 ==> words_or(words, default) == CliArgsView::Run(words[0]),
        words_or(words.push("-h"@) + more, default) is Help,
        words_or(words.push("--help"@) + more, default) is Help,
{
    joining_keeps_all_parts(words, more, " "@);
    assert(!any_help(words + more)) by {
        assert forall|i: int| 0 <= i < (words + more).len() implies !asks_for_help(
            #[trigger] (words + more)[i],
        ) by {
            if i < words.len() {
                assert(!asks_for_help(words[i]));
            } else {
                assert(!asks_for_help(more[i - words.len()]));
            }
        }
    }
    let n = words.len() as int;
    assert((words.push("-h"@) + more)[n] == "-h"@);
    assert((words.push("--help"@) + more)[n] == "--help"@);
    assert(asks_for_help((words.push("-h"@) + more)[n]));
    assert(asks_for_help((words.push("--help"@) + more)[n]));
}

/// White space around what was typed does not matter, and what is neither empty nor a word that
/// stops is taken up as it was typed.
pub proof fn typed_text_is_taken_up(before: Seq<char>, text: Seq<char>, after: Seq<char>)
    requires
        forall|i: int| 0 <= i < before.len() ==> white_space(#[trigger] before[i]),
        forall|i: int| 0 <= i < after.len() ==> white_space(#[trigger] after[i]),
        text.len() > 0 ==> !white_space(text.first()) && !white_space(text.last()),
    ensures
        typed(Some(before + text + after)) == if text.len() == 0 {
            TypedLineView::Skip
        } else if text == "exit"@ || text == "quit"@ {
            TypedLineView::Stop
        } else {
            TypedLineView::Say(text)
        },
        typed(None) is Stop,
{
    trimming_finds_the_middle(before, text, after);
}

/// Each command but help has one name, and what is no command's name names none.
pub proof fn commands_have_one_name(a: Seq<char>, b: Seq<char>)
    requires
        command_named(a) == command_named(b),
        command_named(a) is Some,
        !(command_named(a)->0 is Help),
    ensures
        a == b,
{
}

/// A command without options runs exactly where it is given no argument; otherwise the first one
/// decides, whatever follows it.
pub proof fn a_command_without_options_takes_none(
    first: Seq<char>,
    later: Seq<Seq<char>>,
    fault: Seq<char>,
)
    ensures
        no_options(Seq::empty(), fault) is Run,
        no_options(seq![first] + later, fault) == no_options(seq![first], fault),
        no_options(seq![first], fault) is Help <==> first == "-h"@ || first == "--help"@,
        !(no_options(seq![first], fault) is Help) ==> no_options(seq![first], fault)
            == CliArgsView::<()>::Invalid(fault + first),
{
    assert((seq![first] + later)[0] == first);
}

} // verus!

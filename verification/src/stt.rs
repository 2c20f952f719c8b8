//! Transcription of recordings over HTTP.

use vstd::prelude::*;
use vstd::string::*;

use crate::text;

verus! {

/// How a transcript is to be written.
#[derive(Debug, Clone, Copy, PartialEq, Eq, Structural)]
pub enum ResponseFormat {
    Json,
    Text,
    Srt,
    VerboseJson,
    Vtt,
}

/// Why a recording could not be transcribed.
#[derive(Debug, Clone, PartialEq, Eq)]
pub enum SttError {
    /// No such format.
    UnsupportedFormat(String),
    /// The server refused.
    Http { status: String, body: String },
    /// An event of the server was no JSON document, or not the right one.
    InvalidEvent { event: String, cause: String },
}

/// The text of an [`SttError`].
pub open spec fn stt_error_text(error: SttError) -> Seq<char> {
    match error {
        SttError::UnsupportedFormat(value) => "unsupported response format: "@ + value@,
        SttError::Http { status, body } => "transcription failed with HTTP "@ + status@ + ": "@
            + body@,
        SttError::InvalidEvent { event, cause } => "invalid transcription SSE event: "@ + event@
            + ": "@ + cause@,
    }
}

impl SttError {
    /// The text of this error.
    pub fn message(&self) -> (r: String)
        ensures
            r@ == stt_error_text(*self),
    {
        match self {
            SttError::UnsupportedFormat(value) => {
                let mut out = "unsupported response format: ".to_owned();
                out.append(value.as_str());
                out
            },
            SttError::Http { status, body } => {
                let mut out = "transcription failed with HTTP ".to_owned();
                out.append(status.as_str());
                out.append(": ");
                out.append(body.as_str());
                out
            },
            SttError::InvalidEvent { event, cause } => {
                let mut out = "invalid transcription SSE event: ".to_owned();
                out.append(event.as_str());
                out.append(": ");
                out.append(cause.as_str());
                out
            },
        }
    }
}

/// The name of a format.
pub open spec fn format_name(format: ResponseFormat) -> Seq<char> {
    match format {
        ResponseFormat::Json => "json"@,
        ResponseFormat::Text => "text"@,
        ResponseFormat::Srt => "srt"@,
        ResponseFormat::VerboseJson => "verbose_json"@,
        ResponseFormat::Vtt => "vtt"@,
    }
}

/// The format with a name.
pub open spec fn named_format(name: Seq<char>) -> Option<ResponseFormat> {
    if name == "json"@ {
        Some(ResponseFormat::Json)
    } else if name == "text"@ {
        Some(ResponseFormat::Text)
    } else if name == "srt"@ {
        Some(ResponseFormat::Srt)
    } else if name == "verbose_json"@ {
        Some(ResponseFormat::VerboseJson)
    } else if name == "vtt"@ {
        Some(ResponseFormat::Vtt)
    } else {
        None
    }
}

impl ResponseFormat {
    /// The name of a format.
    pub fn as_str(self) -> (r: &'static str)
        ensures
            r@ == format_name(self),
    {
        match self {
            ResponseFormat::Json => "json",
            ResponseFormat::Text => "text",
            ResponseFormat::Srt => "srt",
            ResponseFormat::VerboseJson => "verbose_json",
            ResponseFormat::Vtt => "vtt",
        }
    }

    /// The format with a name.
    pub fn from_name(value: &str) -> (r: Result<Self, SttError>)
        ensures
            match r {
                Ok(format) => named_format(value@) == Some(format),
                Err(error) => named_format(value@) is None && (error matches
                    SttError::UnsupportedFormat(v) && v@ == value@),
            },
    {
        if text::same_text(value, "json") {
            Ok(ResponseFormat::Json)
        } else if text::same_text(value, "text") {
            Ok(ResponseFormat::Text)
        } else if text::same_text(value, "srt") {
            Ok(ResponseFormat::Srt)
        } else if text::same_text(value, "verbose_json") {
            Ok(ResponseFormat::VerboseJson)
        } else if text::same_text(value, "vtt") {
            Ok(ResponseFormat::Vtt)
        } else {
            Err(SttError::UnsupportedFormat(value.to_owned()))
        }
    }
}

impl std::str::FromStr for ResponseFormat {
    type Err = SttError;

    fn from_str(value: &str) -> Result<Self, SttError> {
        Self::from_name(value)
    }
}

/// A format is found again by its name.
pub proof fn formats_are_found_by_name(format: ResponseFormat)
    ensures
        named_format(format_name(format)) == Some(format),
{
    reveal_strlit("json");
    reveal_strlit("text");
    reveal_strlit("srt");
    reveal_strlit("verbose_json");
    reveal_strlit("vtt");
    assert("json"@[0] == 'j');
    assert("text"@[0] == 't');
    assert("srt"@[0] == 's');
    assert("verbose_json"@.len() == 12);
    assert("vtt"@[0] == 'v');
    assert("vtt"@.len() == 3);
}

/// Only the name of a format is read as it.
pub proof fn names_belong_to_formats(name: Seq<char>)
    ensures
        named_format(name) matches Some(format) ==> format_name(format) == name,
{
}

/// How a recording is to be transcribed.
#[derive(Debug, Clone, PartialEq, Eq)]
pub struct TranscribeOptions {
    pub model: String,
    pub response_format: ResponseFormat,
    pub language: Option<String>,
    pub prompt: Option<String>,
    pub hotwords: Option<String>,
    pub without_timestamps: bool,
    pub stream: bool,
}

/// A part of the form that is sent.
#[derive(Debug, Clone, PartialEq, Eq)]
pub enum FormPart {
    Field { name: String, value: String },
    /// The recording, under a file name.
    File { name: String, file_name: String },
}

/// The mathematical view of a [`FormPart`].
pub enum PartView {
    Field(Seq<char>, Seq<char>),
    File(Seq<char>, Seq<char>),
}

impl FormPart {
    /// The mathematical view.
    pub open spec fn view(&self) -> PartView {
        match self {
            FormPart::Field { name, value } => PartView::Field(name@, value@),
            FormPart::File { name, file_name } => PartView::File(name@, file_name@),
        }
    }
}

/// The views of some parts.
pub open spec fn part_views(parts: Seq<FormPart>) -> Seq<PartView> {
    parts.map_values(|p: FormPart| p@)
}

/// The field of an option, if it says anything.
pub open spec fn optional_part(name: Seq<char>, value: Option<Seq<char>>) -> Seq<PartView> {
    match value {
        Some(value) => match text::non_empty(value) {
            Some(value) => seq![PartView::Field(name, value)],
            None => seq![],
        },
        None => seq![],
    }
}

/// The name of a flag.
pub open spec fn flag_name(flag: bool) -> Seq<char> {
    if flag {
        "true"@
    } else {
        "false"@
    }
}

/// The file name under which a recording is sent.
pub open spec fn sent_file_name(audio_path: Seq<char>) -> Seq<char> {
    match text::path_file_name(audio_path) {
        Some(name) => name,
        None => "audio.wav"@,
    }
}

/// The form that asks for a transcript of a recording.
pub open spec fn transcription_form(
    options: TranscribeOptions,
    audio_path: Seq<char>,
) -> Seq<PartView> {
    seq![
        PartView::Field("model"@, options.model@),
        PartView::Field("response_format"@, format_name(options.response_format)),
        PartView::Field("without_timestamps"@, flag_name(options.without_timestamps)),
        PartView::File("file"@, sent_file_name(audio_path)),
    ] + optional_part("language"@, text::opt_view(options.language)) + optional_part(
        "prompt"@,
        text::opt_view(options.prompt),
    ) + optional_part("hotwords"@, text::opt_view(options.hotwords)) + (if options.stream {
        seq![PartView::Field("stream"@, "true"@)]
    } else {
        seq![]
    })
}

fn push_field(parts: &mut Vec<FormPart>, name: &str, value: &str)
    ensures
        part_views(final(parts)@) == part_views(old(parts)@).push(PartView::Field(name@, value@)),
{
    parts.push(FormPart::Field { name: name.to_owned(), value: value.to_owned() });
    proof {
        assert(part_views(parts@) =~= part_views(old(parts)@).push(
            PartView::Field(name@, value@),
        ));
    }
}

fn push_optional(parts: &mut Vec<FormPart>, name: &str, value: &Option<String>)
    ensures
        part_views(final(parts)@) == part_views(old(parts)@) + optional_part(
            name@,
            text::opt_view(*value),
        ),
{
    let ghost before = part_views(parts@);
    if let Some(value) = value {
        if let Some(value) = text::non_empty_str(value.as_str()) {
            push_field(parts, name, value);
        }
    }
    proof {
        assert(part_views(parts@) =~= before + optional_part(name@, text::opt_view(*value)));
    }
}

/// The form that asks for a transcript of a recording.
pub fn form_parts(options: &TranscribeOptions, audio_path: &str) -> (r: Vec<FormPart>)
    ensures
        part_views(r@) == transcription_form(*options, audio_path@),
{
    let mut parts: Vec<FormPart> = Vec::new();
    push_field(&mut parts, "model", options.model.as_str());
    push_field(&mut parts, "response_format", options.response_format.as_str());
    push_field(
        &mut parts,
        "without_timestamps",
        if options.without_timestamps {
            "true"
        } else {
            "false"
        },
    );
    let ghost fields = part_views(parts@);
    let file_name = match text::file_name(audio_path) {
        Some(name) => name,
        None => "audio.wav".to_owned(),
    };
    parts.push(FormPart::File { name: "file".to_owned(), file_name });
    proof {
        assert(part_views(parts@) =~= fields.push(
            PartView::File("file"@, sent_file_name(audio_path@)),
        ));
    }
    let ghost head = part_views(parts@);
    push_optional(&mut parts, "language", &options.language);
    push_optional(&mut parts, "prompt", &options.prompt);
    push_optional(&mut parts, "hotwords", &options.hotwords);
    if options.stream {
        push_field(&mut parts, "stream", "true");
    }
    proof {
        assert(head =~= seq![
            PartView::Field("model"@, options.model@),
            PartView::Field("response_format"@, format_name(options.response_format)),
            PartView::Field("without_timestamps"@, flag_name(options.without_timestamps)),
            PartView::File("file"@, sent_file_name(audio_path@)),
        ]);
        assert(part_views(parts@) =~= transcription_form(*options, audio_path@));
    }
    parts
}

/// `s` without the white space at its start.
pub open spec fn start_trimmed(s: Seq<char>) -> Seq<char>
    decreases s.len(),
{
    if s.len() > 0 && text::white_space(s[0]) {
        start_trimmed(s.drop_first())
    } else {
        s
    }
}

/// The data in the lines of an event: what stands behind `data:`.
pub open spec fn data_lines(lines: Seq<Seq<char>>) -> Seq<Seq<char>>
    decreases lines.len(),
{
    if lines.len() == 0 {
        seq![]
    } else {
        let before = data_lines(lines.drop_last());
        if text::begins(lines.last(), "data:"@) {
            before.push(start_trimmed(lines.last().skip("data:"@.len() as int)))
        } else {
            before
        }
    }
}

/// The data of some events. One without data is none.
pub open spec fn data_of(events: Seq<Seq<char>>) -> Seq<Seq<char>>
    decreases events.len(),
{
    if events.len() == 0 {
        seq![]
    } else {
        let before = data_of(events.drop_last());
        let data = data_lines(text::lines(events.last()));
        if data.len() == 0 {
            before
        } else {
            before.push(text::joined(data, "\n"@))
        }
    }
}

/// The data of the events in the body of an event stream, in which an empty line ends an event.
pub open spec fn stream_data(body: Seq<char>) -> Seq<Seq<char>> {
    data_of(text::pieces(body, "\n\n"@))
}

/// `s` without the white space at its start.
fn trim_start<'a>(s: &'a str) -> (r: &'a str)
    ensures
        r@ == start_trimmed(s@),
{
    let chars = text::chars_of(s);
    let len: usize = chars.len();
    let mut from: usize = 0;
    proof {
        assert(s@.skip(0) =~= s@);
    }
    while from < len && text::is_white_space(chars[from])
        invariant
            from <= len == chars@.len(),
            chars@ == s@,
            start_trimmed(s@) == start_trimmed(s@.skip(from as int)),
        decreases len - from,
    {
        proof {
            assert(s@.skip(from as int).drop_first() =~= s@.skip(from + 1));
        }
        from += 1;
    }
    let rest = s.substring_char(from, len);
    proof {
        assert(rest@ =~= s@.skip(from as int));
    }
    rest
}

/// The data in the lines of an event.
fn event_data(event: &str) -> (r: Vec<String>)
    ensures
        text::views(r@) == data_lines(text::lines(event@)),
{
    let lines = text::lines_of(event);
    let ghost all = text::lines(event@);
    let mut out: Vec<String> = Vec::new();
    let mut i: usize = 0;
    proof {
        assert(text::views(out@) =~= seq![]);
    }
    while i < lines.len()
        invariant
            i <= lines@.len(),
            text::views(lines@) == all,
            text::views(out@) == data_lines(all.take(i as int)),
        decreases lines@.len() - i,
    {
        proof {
            assert(all.take(i + 1).drop_last() =~= all.take(i as int));
            assert(all.take(i + 1).last() == lines@[i as int]@);
        }
        let line = lines[i].as_str();
        if text::starts_with(line, "data:") {
            let prefix = "data:".unicode_len();
            let rest = line.substring_char(prefix, line.unicode_len());
            proof {
                assert(rest@ =~= line@.skip(prefix as int));
            }
            text::push_text(&mut out, trim_start(rest));
        }
        i += 1;
    }
    proof {
        assert(all.len() == lines@.len());
        assert(all.take(i as int) =~= all);
    }
    out
}

/// The data of the events in the body of an event stream.
pub fn sse_data_events(body: &str) -> (r: Vec<String>)
    ensures
        text::views(r@) == stream_data(body@),
{
    proof {
        reveal_strlit("\n\n");
    }
    let events = text::split_on(body, "\n\n");
    let ghost all = text::pieces(body@, "\n\n"@);
    let mut out: Vec<String> = Vec::new();
    let mut i: usize = 0;
    proof {
        assert(text::views(out@) =~= seq![]);
    }
    while i < events.len()
        invariant
            i <= events@.len(),
            text::views(events@) == all,
            text::views(out@) == data_of(all.take(i as int)),
        decreases events@.len() - i,
    {
        proof {
            assert(all.take(i + 1).drop_last() =~= all.take(i as int));
            assert(all.take(i + 1).last() == events@[i as int]@);
        }
        let data = event_data(events[i].as_str());
        proof {
            assert(text::views(data@).len() == data@.len());
        }
        if data.len() > 0 {
            text::push_text(&mut out, text::join(&data, "\n").as_str());
        }
        i += 1;
    }
    proof {
        assert(all.len() == events@.len());
        assert(all.take(i as int) =~= all);
    }
    out
}

/// An event of a streamed transcript.
#[derive(Debug, Clone, PartialEq, Eq)]
pub struct TranscriptStreamEvent {
    pub event_type: String,
    pub delta: Option<String>,
    pub text: Option<String>,
}

/// What an event of a streamed transcript says.
pub struct StreamEvent {
    pub kind: Seq<char>,
    pub delta: Option<Seq<char>>,
    pub text: Option<Seq<char>>,
}

impl TranscriptStreamEvent {
    /// What the event says.
    pub open spec fn view(&self) -> StreamEvent {
        StreamEvent {
            kind: self.event_type@,
            delta: text::opt_view(self.delta),
            text: text::opt_view(self.text),
        }
    }
}

/// What has arrived of a streamed transcript.
pub struct StreamView {
    /// The pieces, one behind the other.
    pub delta: Seq<char>,
    /// The whole, as the last event told it.
    pub done: Option<Seq<char>>,
}

/// What has arrived after one more event.
pub open spec fn after_event(state: StreamView, event: StreamEvent) -> StreamView {
    if event.kind == "transcript.text.delta"@ {
        StreamView { delta: state.delta + text::or_empty(event.delta), ..state }
    } else if event.kind == "transcript.text.done"@ {
        StreamView { done: event.text, ..state }
    } else {
        state
    }
}

/// The transcript: the whole, if it was told and is not blank, else the pieces.
pub open spec fn streamed_text(state: StreamView) -> Seq<char> {
    match state.done {
        Some(text) => if text::trimmed(text).len() > 0 {
            text
        } else {
            state.delta
        },
        None => state.delta,
    }
}

/// Whether a piece of data is the mark at the end of a stream, which holds no event.
pub open spec fn is_end_mark(data: Seq<char>) -> bool {
    text::trimmed(data) == "[DONE]"@
}

/// Whether `reply` is what a reader answered to a piece of data.
pub open spec fn answered<F: Fn(&str) -> Result<TranscriptStreamEvent, String>>(
    read_event: F,
    data: Seq<char>,
    reply: Result<TranscriptStreamEvent, String>,
) -> bool {
    exists|asked: &str| asked@ == data && call_ensures(read_event, (asked,), reply)
}

/// Whether the first pieces of data, as many as there are replies, were read in turn. The mark at
/// the end of a stream is not read.
pub open spec fn read_in_turn<F: Fn(&str) -> Result<TranscriptStreamEvent, String>>(
    read_event: F,
    data: Seq<Seq<char>>,
    replies: Seq<Result<TranscriptStreamEvent, String>>,
) -> bool {
    &&& replies.len() <= data.len()
    &&& forall|i: int|
        0 <= i < replies.len() ==> is_end_mark(#[trigger] data[i]) || answered(
            read_event,
            data[i],
            replies[i],
        )
}

/// What has arrived after several pieces of data, given what reading them answered; nothing if one
/// of them could not be read.
pub open spec fn after_data(
    data: Seq<Seq<char>>,
    replies: Seq<Result<TranscriptStreamEvent, String>>,
) -> Option<StreamView>
    decreases data.len(),
{
    if data.len() == 0 {
        Some(StreamView { delta: seq![], done: None })
    } else {
        match after_data(data.drop_last(), replies.drop_last()) {
            None => None,
            Some(state) => if is_end_mark(data.last()) {
                Some(state)
            } else {
                match replies.last() {
                    Err(_) => None,
                    Ok(event) => Some(after_event(state, event@)),
                }
            },
        }
    }
}

/// What comes of the data of a stream, given what reading it answered: the transcript, or an error
/// that tells of the first piece that could not be read. Nothing behind it is read.
pub open spec fn stream_result(
    data: Seq<Seq<char>>,
    replies: Seq<Result<TranscriptStreamEvent, String>>,
    r: Result<String, SttError>,
) -> bool {
    match r {
        Ok(text) => {
            &&& replies.len() == data.len()
            &&& after_data(data, replies) is Some
            &&& text@ == streamed_text(after_data(data, replies)->0)
        },
        Err(error) => {
            let k = replies.len() - 1;
            &&& 0 <= k < data.len()
            &&& after_data(data.take(k), replies.take(k)) is Some
            &&& !is_end_mark(data[k])
            &&& replies[k] matches Err(why) && error matches SttError::InvalidEvent {
                event,
                cause,
            } && event@ == data[k] && cause@ == why@
        },
    }
}

/// A streamed transcript as it arrives.
#[derive(Debug)]
pub struct StreamedTranscript {
    delta_text: String,
    done_text: Option<String>,
}

impl Default for StreamedTranscript {
    fn default() -> (r: Self)
        ensures
            r@ == (StreamView { delta: seq![], done: None }),
    {
        let r = Self { delta_text: String::new(), done_text: None };
        proof {
            assert(r@.delta =~= seq![]);
        }
        r
    }
}

impl StreamedTranscript {
    /// What has arrived.
    pub closed spec fn view(&self) -> StreamView {
        StreamView { delta: self.delta_text@, done: text::opt_view(self.done_text) }
    }

    /// Takes an event.
    pub fn take_event(&mut self, event: TranscriptStreamEvent)
        ensures
            final(self)@ == after_event(old(self)@, event@),
    {
        let kind = event.event_type.as_str();
        if text::same_text(kind, "transcript.text.delta") {
            if let Some(delta) = &event.delta {
                self.delta_text.append(delta.as_str());
            }
            proof {
                assert(self@.delta =~= old(self)@.delta + text::or_empty(event@.delta));
            }
        } else if text::same_text(kind, "transcript.text.done") {
            self.done_text = event.text;
        }
    }

    /// The transcript.
    pub fn into_text(self) -> (r: String)
        ensures
            r@ == streamed_text(self@),
    {
        match self.done_text {
            Some(text) => if text::trim(text.as_str()).unicode_len() > 0 {
                text
            } else {
                self.delta_text
            },
            None => self.delta_text,
        }
    }
}

/// The transcript in the body of an event stream. `read_event` reads the event in a piece of data,
/// or tells why it holds none.
pub fn parse_streaming_transcript<F: Fn(&str) -> Result<TranscriptStreamEvent, String>>(
    body: &str,
    read_event: F,
) -> (r: Result<String, SttError>)
    requires
        forall|data: &str| call_requires(read_event, (data,)),
    ensures
        exists|replies: Seq<Result<TranscriptStreamEvent, String>>| #[trigger]
            read_in_turn(read_event, stream_data(body@), replies) && stream_result(
                stream_data(body@),
                replies,
                r,
            ),
{
    let events = sse_data_events(body);
    let ghost all = stream_data(body@);
    let ghost mut replies: Seq<Result<TranscriptStreamEvent, String>> = seq![];
    let mut transcript = StreamedTranscript::default();
    let mut i: usize = 0;
    while i < events.len()
        invariant
            i <= events@.len(),
            text::views(events@) == all,
            all == stream_data(body@),
            forall|data: &str| call_requires(read_event, (data,)),
            replies.len() == i,
            read_in_turn(read_event, all, replies),
            after_data(all.take(i as int), replies) == Some(transcript@),
        decreases events@.len() - i,
    {
        let ghost before = replies;
        proof {
            assert(all.take(i + 1).drop_last() =~= all.take(i as int));
            assert(all.take(i + 1).last() == events@[i as int]@);
            assert(all[i as int] == events@[i as int]@);
        }
        let event = events[i].as_str();
        if text::same_text(text::trim(event), "[DONE]") {
            proof {
                replies = replies.push(arbitrary());
                assert(replies.drop_last() =~= before);
            }
        } else {
            let reply = read_event(event);
            proof {
                replies = replies.push(reply);
                assert(replies.drop_last() =~= before);
                assert(replies.take(i as int) =~= before);
                assert(answered(read_event, all[i as int], reply));
            }
            match reply {
                Ok(event) => transcript.take_event(event),
                Err(cause) => {
                    let r: Result<String, SttError> = Err(
                        SttError::InvalidEvent { event: event.to_owned(), cause },
                    );
                    proof {
                        assert(read_in_turn(read_event, all, replies));
                        assert(stream_result(all, replies, r));
                    }
                    return r;
                },
            }
        }
        i += 1;
    }
    proof {
        assert(all.len() == events@.len());
        assert(all.take(i as int) =~= all);
    }
    let r: Result<String, SttError> = Ok(transcript.into_text());
    proof {
        assert(stream_result(all, replies, r));
    }
    r
}

/// The transcript in the answer of the server. `read_event` reads the event in a piece of data of a
/// stream, or tells why it holds none.
pub fn transcription_result<F: Fn(&str) -> Result<TranscriptStreamEvent, String>>(
    succeeded: bool,
    status: &str,
    body: String,
    stream: bool,
    read_event: F,
) -> (r: Result<String, SttError>)
    requires
        forall|data: &str| call_requires(read_event, (data,)),
    ensures
        if !succeeded {
            r matches Err(SttError::Http { status: s, body: b }) && s@ == status@ && b@ == body@
        } else if !stream {
            r == Ok::<String, SttError>(body)
        } else {
            exists|replies: Seq<Result<TranscriptStreamEvent, String>>| #[trigger]
                read_in_turn(read_event, stream_data(body@), replies) && stream_result(
                    stream_data(body@),
                    replies,
                    r,
                )
        },
{
    if !succeeded {
        return Err(SttError::Http { status: status.to_owned(), body });
    }
    if stream {
        parse_streaming_transcript(body.as_str(), read_event)
    } else {
        Ok(body)
    }
}

/// Formats go by the names that the server knows.
pub proof fn formats_have_the_names_of_the_server()
    ensures
        format_name(ResponseFormat::Json) == "json"@,
        format_name(ResponseFormat::Text) == "text"@,
        format_name(ResponseFormat::Srt) == "srt"@,
        format_name(ResponseFormat::VerboseJson) == "verbose_json"@,
        format_name(ResponseFormat::Vtt) == "vtt"@,
{
}

/// A form always tells the model, the format and whether times are wanted, and brings the recording;
/// beyond that it holds just what the options say.
pub proof fn forms_tell_what_is_wanted(options: TranscribeOptions, audio_path: Seq<char>)
    ensures
        ({
            let form = transcription_form(options, audio_path);
            let language = text::trimmed(text::or_empty(text::opt_view(options.language)));
            let prompt = text::trimmed(text::or_empty(text::opt_view(options.prompt)));
            let hotwords = text::trimmed(text::or_empty(text::opt_view(options.hotwords)));
            let a: int = if language.len() > 0 {
                1
            } else {
                0
            };
            let b: int = if prompt.len() > 0 {
                1
            } else {
                0
            };
            let c: int = if hotwords.len() > 0 {
                1
            } else {
                0
            };
            &&& form[0] == PartView::Field("model"@, options.model@)
            &&& form[1] == PartView::Field("response_format"@, format_name(options.response_format))
            &&& form[2] == PartView::Field(
                "without_timestamps"@,
                if options.without_timestamps {
                    "true"@
                } else {
                    "false"@
                },
            )
            &&& form[3] is File && form[3]->File_0 == "file"@
            &&& form.len() == 4 + a + b + c + if options.stream {
                1int
            } else {
                0
            }
            &&& language.len() > 0 ==> form[4] == PartView::Field("language"@, language)
            &&& prompt.len() > 0 ==> form[4 + a] == PartView::Field("prompt"@, prompt)
            &&& hotwords.len() > 0 ==> form[4 + a + b] == PartView::Field("hotwords"@, hotwords)
            &&& options.stream ==> form[4 + a + b + c] == PartView::Field("stream"@, "true"@)
        }),
{
    let nothing = Seq::<char>::empty();
    assert(text::trimmed(nothing).len() == 0);
    let language = text::trimmed(text::or_empty(text::opt_view(options.language)));
    let prompt = text::trimmed(text::or_empty(text::opt_view(options.prompt)));
    let hotwords = text::trimmed(text::or_empty(text::opt_view(options.hotwords)));
    let l = optional_part("language"@, text::opt_view(options.language));
    let p = optional_part("prompt"@, text::opt_view(options.prompt));
    let h = optional_part("hotwords"@, text::opt_view(options.hotwords));
    assert(language.len() > 0 ==> l.len() == 1 && l[0] == PartView::Field("language"@, language));
    assert(language.len() == 0 ==> l.len() == 0);
    assert(prompt.len() > 0 ==> p.len() == 1 && p[0] == PartView::Field("prompt"@, prompt));
    assert(prompt.len() == 0 ==> p.len() == 0);
    assert(hotwords.len() > 0 ==> h.len() == 1 && h[0] == PartView::Field("hotwords"@, hotwords));
    assert(hotwords.len() == 0 ==> h.len() == 0);
}

/// A recording is sent under the last part of its path.
pub proof fn recordings_are_sent_under_their_name(dir: Seq<char>, name: Seq<char>)
    requires
        forall|i: int| 0 <= i < name.len() ==> name[i] != '/',
        name.len() > 0,
        name != "."@,
        name != ".."@,
    ensures
        sent_file_name(dir + "/"@ + name) == name,
        sent_file_name(name) == name,
        sent_file_name(Seq::<char>::empty()) == "audio.wav"@,
{
    text::file_names_stand_behind_the_last_slash(dir, name);
}

/// White space at the start is left out, and nothing else.
proof fn starts_are_trimmed(s: Seq<char>) -> (n: int)
    ensures
        0 <= n <= s.len(),
        start_trimmed(s) == s.skip(n),
        forall|i: int| 0 <= i < n ==> text::white_space(#[trigger] s[i]),
        n < s.len() ==> !text::white_space(s[n]),
    decreases s.len(),
{
    if s.len() > 0 && text::white_space(s[0]) {
        let rest = s.drop_first();
        let m = starts_are_trimmed(rest);
        assert(rest.skip(m) =~= s.skip(m + 1));
        assert forall|i: int| 0 <= i < m + 1 implies text::white_space(#[trigger] s[i]) by {
            if i > 0 {
                assert(s[i] == rest[i - 1]);
            }
        }
        m + 1
    } else {
        assert(s.skip(0) =~= s);
        0
    }
}

/// A line of data adds what stands behind its mark, without the white space before it; any other line
/// adds nothing.
pub proof fn data_stands_behind_its_mark(lines: Seq<Seq<char>>, line: Seq<char>, rest: Seq<char>) -> (n:
    int)
    ensures
        data_lines(Seq::<Seq<char>>::empty()).len() == 0,
        0 <= n <= rest.len(),
        forall|i: int| 0 <= i < n ==> text::white_space(#[trigger] rest[i]),
        n < rest.len() ==> !text::white_space(rest[n]),
        data_lines(lines.push("data:"@ + rest)) == data_lines(lines).push(rest.skip(n)),
        !text::begins(line, "data:"@) ==> data_lines(lines.push(line)) == data_lines(lines),
{
    let mark = "data:"@;
    let marked = mark + rest;
    assert(lines.push(marked).drop_last() =~= lines);
    assert(lines.push(line).drop_last() =~= lines);
    assert(marked.take(mark.len() as int) =~= mark);
    assert(marked.skip(mark.len() as int) =~= rest);
    starts_are_trimmed(rest)
}

/// The events of a stream are told apart by an empty line: what stands before one is an event by
/// itself, and what stands behind it is the rest of the stream.
pub proof fn empty_lines_end_events(event: Seq<char>, rest: Seq<char>)
    requires
        !text::occurs(event, "\n\n"@),
        event.len() == 0 || event.last() != '\n',
    ensures
        stream_data(event + "\n\n"@ + rest) == stream_data(event) + stream_data(rest),
        ({
            let data = data_lines(text::lines(event));
            stream_data(event) == if data.len() == 0 {
                seq![]
            } else {
                seq![text::joined(data, "\n"@)]
            }
        }),
{
    reveal_strlit("\n\n");
    assert("\n\n"@ =~= seq!['\n', '\n']);
    the_first_event_is_a_piece(event, rest);
    let first = seq![event];
    data_adds_up(first, text::pieces(rest, seq!['\n', '\n']));
    assert(first.drop_last() =~= Seq::<Seq<char>>::empty());
    assert(data_of(first.drop_last()) =~= Seq::<Seq<char>>::empty());
    let data = data_lines(text::lines(event));
    if data.len() > 0 {
        assert(Seq::<Seq<char>>::empty().push(text::joined(data, "\n"@)) =~= seq![
            text::joined(data, "\n"@),
        ]);
    }
}

/// What stands before the first empty line is the first piece.
proof fn the_first_event_is_a_piece(event: Seq<char>, rest: Seq<char>)
    requires
        !text::occurs(event, seq!['\n', '\n']),
        event.len() == 0 || event.last() != '\n',
    ensures
        text::pieces(event + seq!['\n', '\n'] + rest, seq!['\n', '\n']) == seq![event]
            + text::pieces(rest, seq!['\n', '\n']),
        text::pieces(event, seq!['\n', '\n']) == seq![event],
{
    let sep = seq!['\n', '\n'];
    let all = event + sep + rest;
    text::first_index_is_an_occurrence(event, sep);
    text::first_index_is_an_occurrence(all, sep);
    let n = event.len() as int;
    assert(all.subrange(n, n + 2) =~= sep);
    assert(text::occurs_at(all, sep, n));
    match text::first_index(all, sep) {
        None => {
            assert(text::occurs(all, sep));
        },
        Some(found) => {
            let i = found as int;
            assert(i <= n);
            if i < n {
                assert(all.subrange(i, i + 2)[0] == all[i]);
                assert(all.subrange(i, i + 2)[1] == all[i + 1]);
                if i + 2 <= n {
                    assert(event.subrange(i, i + 2) =~= all.subrange(i, i + 2));
                    assert(text::occurs_at(event, sep, i));
                } else {
                    assert(event.last() == all[i]);
                }
            }
            assert(all.take(n) =~= event);
            assert(all.skip(n + 2) =~= rest);
        },
    }
}

proof fn data_adds_up(a: Seq<Seq<char>>, b: Seq<Seq<char>>)
    ensures
        data_of(a + b) == data_of(a) + data_of(b),
    decreases b.len(),
{
    if b.len() == 0 {
        assert(a + b =~= a);
        assert(data_of(a) + data_of(b) =~= data_of(a));
    } else {
        assert((a + b).drop_last() =~= a + b.drop_last());
        data_adds_up(a, b.drop_last());
        let data = data_lines(text::lines(b.last()));
        if data.len() > 0 {
            let text = text::joined(data, "\n"@);
            assert((data_of(a) + data_of(b.drop_last())).push(text) =~= data_of(a) + data_of(
                b.drop_last(),
            ).push(text));
        }
    }
}

/// Pieces of a transcript are put one behind the other as they come, whole ones replace each other,
/// and events of another kind change nothing.
pub proof fn pieces_of_a_transcript_add_up(state: StreamView, event: StreamEvent)
    ensures
        event.kind == "transcript.text.delta"@ ==> after_event(state, event).delta == state.delta
            + text::or_empty(event.delta) && after_event(state, event).done == state.done,
        event.kind == "transcript.text.done"@ ==> after_event(state, event).done == event.text
            && after_event(state, event).delta == state.delta,
        event.kind != "transcript.text.delta"@ && event.kind != "transcript.text.done"@
            ==> after_event(state, event) == state,
{
    reveal_strlit("transcript.text.delta");
    reveal_strlit("transcript.text.done");
    assert("transcript.text.delta"@.len() == 21);
    assert("transcript.text.done"@.len() == 20);
}

/// The whole transcript goes before its pieces, unless it is blank.
pub proof fn the_whole_goes_before_the_pieces(delta: Seq<char>, done: Seq<char>)
    ensures
        text::trimmed(done).len() > 0 ==> streamed_text(StreamView { delta, done: Some(done) })
            == done,
        text::trimmed(done).len() == 0 ==> streamed_text(StreamView { delta, done: Some(done) })
            == delta,
        streamed_text(StreamView { delta, done: None }) == delta,
{
}

/// Each piece of data is taken in its turn: one that was read adds its event to what has arrived, the
/// mark at the end adds nothing, and one that could not be read leaves no transcript.
pub proof fn data_is_taken_in_turn(
    data: Seq<Seq<char>>,
    replies: Seq<Result<TranscriptStreamEvent, String>>,
    next: Seq<char>,
    reply: Result<TranscriptStreamEvent, String>,
)
    ensures
        after_data(
            Seq::<Seq<char>>::empty(),
            Seq::<Result<TranscriptStreamEvent, String>>::empty(),
        ) == Some(StreamView { delta: seq![], done: None }),
        after_data(data, replies) is None ==> after_data(data.push(next), replies.push(reply))
            is None,
        text::trimmed(next) == "[DONE]"@ ==> after_data(data.push(next), replies.push(reply))
            == after_data(data, replies),
        text::trimmed(next) != "[DONE]"@ && after_data(data, replies) is Some ==> match reply {
            Ok(event) => after_data(data.push(next), replies.push(reply)) == Some(
                after_event(after_data(data, replies)->0, event@),
            ),
            Err(_) => after_data(data.push(next), replies.push(reply)) is None,
        },
{
    assert(data.push(next).drop_last() =~= data);
    assert(replies.push(reply).drop_last() =~= replies);
}

/// A stream that was read to its end gives the transcript; one that was not gives an error that names
/// the piece of data that could not be read, and why.
pub proof fn unread_data_is_named(
    data: Seq<Seq<char>>,
    replies: Seq<Result<TranscriptStreamEvent, String>>,
    r: Result<String, SttError>,
)
    requires
        stream_result(data, replies, r),
    ensures
        r matches Ok(text) ==> replies.len() == data.len() && after_data(data, replies) is Some
            && text@ == streamed_text(after_data(data, replies)->0),
        r matches Err(error) ==> 0 < replies.len() <= data.len() && replies.last() is Err && (
        error matches SttError::InvalidEvent { event, cause } && event@ == data[replies.len() - 1]
            && cause@ == replies.last()->Err_0@),
{
}

/// The message of an error ends with what is wrong, and names what it is wrong with.
pub proof fn errors_say_what_is_wrong(error: SttError)
    ensures
        error matches SttError::UnsupportedFormat(value) ==> text::ends(
            stt_error_text(error),
            value@,
        ),
        error matches SttError::Http { status, body } ==> text::ends(stt_error_text(error), body@)
            && text::occurs(stt_error_text(error), status@),
        error matches SttError::InvalidEvent { event, cause } ==> text::ends(
            stt_error_text(error),
            cause@,
        ) && text::occurs(stt_error_text(error), event@),
{
    match error {
        SttError::UnsupportedFormat(value) => {
            text::parts_are_found("unsupported response format: "@, value@, value@);
        },
        SttError::Http { status, body } => {
            let head = "transcription failed with HTTP "@;
            text::parts_are_found(head + status@ + ": "@, body@, body@);
            text::parts_are_found(head, status@, ": "@ + body@);
            assert(head + status@ + (": "@ + body@) =~= stt_error_text(error));
        },
        SttError::InvalidEvent { event, cause } => {
            let head = "invalid transcription SSE event: "@;
            text::parts_are_found(head + event@ + ": "@, cause@, cause@);
            text::parts_are_found(head, event@, ": "@ + cause@);
            assert(head + event@ + (": "@ + cause@) =~= stt_error_text(error));
        },
    }
}

/// Each reply is what reading the piece of data in the same place answered, but for the mark at the
/// end, and no more was read than there is.
pub proof fn each_piece_is_read_for_itself<F: Fn(&str) -> Result<TranscriptStreamEvent, String>>(
    read_event: F,
    data: Seq<Seq<char>>,
    replies: Seq<Result<TranscriptStreamEvent, String>>,
    k: int,
)
    requires
        read_in_turn(read_event, data, replies),
        0 <= k < replies.len(),
    ensures
        replies.len() <= data.len(),
        text::trimmed(data[k]) != "[DONE]"@ ==> exists|asked: &str|
            asked@ == data[k] && call_ensures(read_event, (asked,), replies[k]),
{
    assert(is_end_mark(data[k]) || answered(read_event, data[k], replies[k]));
}

} // verus!

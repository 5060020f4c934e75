//! The media of a message: which outside work a request needs, one after the other, and what it
//! is answered with.

use crate::keys::{
    Answer, KeyEvent, KeyRequest, KeyRing, KeyStage, Request, Stage, VOICE, answered, asked,
    ensure_media_keys_for_message,
};
use crate::seqs::lemma_filter_sum;
use crate::session::Session;
use crate::text::{
    decimal, decimal_text, lowercase, opt_text, pair_texts, same_text, texts, to_lowercase,
};
use vstd::prelude::*;

verus! {

// ---------------------------------------------------------------------------
// Base64
// ---------------------------------------------------------------------------

/// What `base64::engine::general_purpose::STANDARD` makes of a text: the bytes, or what its error
/// says.
pub uninterp spec fn base64_decoded(data: Seq<char>) -> Result<Seq<u8>, Seq<char>>;

/// The bytes or the message of a decoded text.
pub open spec fn decoding(r: Result<Vec<u8>, String>) -> Result<Seq<u8>, Seq<char>> {
    match r {
        Ok(bytes) => Ok(bytes@),
        Err(e) => Err(e@),
    }
}

/// Calls `base64::Engine::decode` on the standard engine. The contract claims that the bytes, or
/// the text of the error, depend on the encoded text alone.
#[verifier::external_body]
pub(crate) fn base64_decode(data: &str) -> (r: Result<Vec<u8>, String>)
    ensures
        decoding(r) == base64_decoded(data@),
{
    base64::Engine::decode(&base64::engine::general_purpose::STANDARD, data)
        .map_err(|e| e.to_string())
}

// ---------------------------------------------------------------------------
// Replies
// ---------------------------------------------------------------------------

/// The media of a message.
#[derive(Debug, Clone)]
pub struct MediaResult {
    pub media_type: String,
    pub data: Option<String>,
    pub url: Option<String>,
    pub format: String,
    pub filename: String,
    pub role: Option<String>,
    pub file_path: Option<String>,
}

/// How a request for media wants to be answered.
#[derive(Debug, Clone, Copy)]
pub struct MediaParams {
    pub raw: bool,
}

impl Default for MediaParams {
    fn default() -> (r: MediaParams)
        ensures
            !r.raw,
    {
        MediaParams { raw: false }
    }
}

/// The body of a reply.
#[derive(Debug)]
pub enum MediaBody {
    Json(MediaResult),
    Text(String),
    Empty,
    File(String),
    Bytes(Vec<u8>),
}

/// A reply: its status, the headers that are set on it, and its body.
#[derive(Debug)]
pub struct MediaReply {
    pub status: u16,
    pub headers: Vec<(String, String)>,
    pub body: MediaBody,
}

/// What a [`MediaResult`] says.
pub struct Media {
    pub media_type: Seq<char>,
    pub data: Option<Seq<char>>,
    pub url: Option<Seq<char>>,
    pub format: Seq<char>,
    pub filename: Seq<char>,
    pub role: Option<Seq<char>>,
    pub file_path: Option<Seq<char>>,
}

/// What a [`MediaBody`] holds.
pub enum Body {
    Json(Media),
    Text(Seq<char>),
    Empty,
    File(Seq<char>),
    Bytes(Seq<u8>),
}

/// What a [`MediaReply`] says.
pub struct Reply {
    pub status: int,
    pub headers: Seq<(Seq<char>, Seq<char>)>,
    pub body: Body,
}

impl View for MediaResult {
    type V = Media;

    open spec fn view(&self) -> Media {
        Media {
            media_type: self.media_type@,
            data: opt_text(self.data),
            url: opt_text(self.url),
            format: self.format@,
            filename: self.filename@,
            role: opt_text(self.role),
            file_path: opt_text(self.file_path),
        }
    }
}

impl View for MediaBody {
    type V = Body;

    open spec fn view(&self) -> Body {
        match *self {
            MediaBody::Json(media) => Body::Json(media@),
            MediaBody::Text(text) => Body::Text(text@),
            MediaBody::Empty => Body::Empty,
            MediaBody::File(path) => Body::File(path@),
            MediaBody::Bytes(bytes) => Body::Bytes(bytes@),
        }
    }
}

impl View for MediaReply {
    type V = Reply;

    open spec fn view(&self) -> Reply {
        Reply {
            status: self.status as int,
            headers: pair_texts(self.headers@),
            body: self.body@,
        }
    }
}

/// Whether a text can be the value of a header: no control characters but the tab.
pub open spec fn is_header_text(s: Seq<char>) -> bool {
    forall|i: int|
        0 <= i < s.len() ==> ((#[trigger] s[i]) >= ' ' && s[i] != '\u{7f}') || s[i] == '\t'
}

/// Calls `axum::http::HeaderValue::from_str`, which takes a text as the value of a header exactly
/// where none of its bytes is a control character other than the tab. The bytes of a character
/// beyond ASCII are none.
#[verifier::external_body]
fn is_header_value(s: &str) -> (r: bool)
    ensures
        r == is_header_text(s@),
{
    axum::http::HeaderValue::from_str(s).is_ok()
}

/// A header, where its value is one.
pub open spec fn header(name: Seq<char>, value: Seq<char>) -> Seq<(Seq<char>, Seq<char>)> {
    if is_header_text(value) {
        seq![(name, value)]
    } else {
        Seq::empty()
    }
}

/// The media type of a file by its format.
pub open spec fn mime(format: Seq<char>) -> Seq<char> {
    let f = lowercase(format);
    if f == "jpg"@ || f == "jpeg"@ {
        "image/jpeg"@
    } else if f == "png"@ {
        "image/png"@
    } else if f == "gif"@ {
        "image/gif"@
    } else if f == "mp3"@ {
        "audio/mpeg"@
    } else if f == "mp4"@ {
        "video/mp4"@
    } else if f == "pdf"@ {
        "application/pdf"@
    } else {
        "application/octet-stream"@
    }
}

/// A media result that only says of what kind it is.
pub open spec fn bare_media(kind: Seq<char>) -> Media {
    Media {
        media_type: kind,
        data: None,
        url: None,
        format: Seq::empty(),
        filename: Seq::empty(),
        role: None,
        file_path: None,
    }
}

/// The raw reply without media.
pub open spec fn status_reply(kind: Seq<char>, status: int) -> Reply {
    Reply { status, headers: seq![("x-media-status"@, kind)], body: Body::Text(kind) }
}

/// The reply with a media result.
pub open spec fn json_reply(media: Media) -> Reply {
    Reply { status: 200, headers: Seq::empty(), body: Body::Json(media) }
}

/// The reply to a request that cannot be served.
pub open spec fn unsupported_reply(raw: bool) -> Reply {
    if raw {
        status_reply("unsupported"@, 404)
    } else {
        json_reply(bare_media("unsupported"@))
    }
}

/// The reply to a request that cannot be served yet.
pub open spec fn pending_reply(raw: bool) -> Reply {
    if raw {
        status_reply("pending"@, 202)
    } else {
        json_reply(bare_media("pending"@))
    }
}

/// The headers of every raw reply with media.
pub open spec fn ready_headers(media: Media) -> Seq<(Seq<char>, Seq<char>)> {
    seq![("x-media-status"@, "ready"@)] + header(
        "x-media-role"@,
        match media.role {
            Some(role) => role,
            None => "original"@,
        },
    ) + header("x-media-filename"@, media.filename)
}

/// How a file is shown.
pub open spec fn disposition(filename: Seq<char>) -> Seq<char> {
    "inline; filename=\""@ + filename + "\""@
}

/// The raw reply that points to the media.
pub open spec fn url_reply(media: Media, url: Seq<char>) -> Reply {
    Reply {
        status: 200,
        headers: header("x-media-url"@, url) + ready_headers(media),
        body: Body::Empty,
    }
}

/// The raw reply that streams a file; its length is given where it is known.
pub open spec fn file_reply(media: Media, path: Seq<char>, len: Option<u64>) -> Reply {
    Reply {
        status: 200,
        headers: seq![("content-type"@, mime(media.format))] + match len {
            Some(n) => seq![("content-length"@, decimal_text(n as nat))],
            None => Seq::empty(),
        } + header("content-disposition"@, disposition(media.filename)) + ready_headers(media),
        body: Body::File(path),
    }
}

/// The raw reply that holds the bytes of the media, none where they could not be decoded.
pub open spec fn bytes_reply(media: Media, decoded: Result<Seq<u8>, Seq<char>>) -> Reply {
    Reply {
        status: 200,
        headers: seq![("content-type"@, mime(media.format))] + header(
            "content-disposition"@,
            disposition(media.filename),
        ) + ready_headers(media),
        body: Body::Bytes(
            match decoded {
                Ok(bytes) => bytes,
                Err(_) => Seq::empty(),
            },
        ),
    }
}

/// The raw reply for media that is neither linked nor in a file that can be read.
pub open spec fn inline_reply(media: Media) -> Reply {
    match media.data {
        Some(data) => bytes_reply(media, base64_decoded(data)),
        None => pending_reply(true),
    }
}

fn media_mime(format: &str) -> (r: &'static str)
    ensures
        r@ == mime(format@),
{
    let lower = to_lowercase(format);
    let f = lower.as_str();
    if same_text(f, "jpg") || same_text(f, "jpeg") {
        "image/jpeg"
    } else if same_text(f, "png") {
        "image/png"
    } else if same_text(f, "gif") {
        "image/gif"
    } else if same_text(f, "mp3") {
        "audio/mpeg"
    } else if same_text(f, "mp4") {
        "video/mp4"
    } else if same_text(f, "pdf") {
        "application/pdf"
    } else {
        "application/octet-stream"
    }
}

fn set_header(headers: &mut Vec<(String, String)>, name: &str, value: &str)
    ensures
        pair_texts(final(headers)@) == pair_texts(old(headers)@).push((name@, value@)),
{
    headers.push((name.to_owned(), value.to_owned()));
    assert(pair_texts(headers@) =~= pair_texts(old(headers)@).push((name@, value@)));
}

fn try_header(headers: &mut Vec<(String, String)>, name: &str, value: &str)
    ensures
        pair_texts(final(headers)@) == pair_texts(old(headers)@) + header(name@, value@),
{
    if is_header_value(value) {
        set_header(headers, name, value);
    }
    assert(pair_texts(headers@) =~= pair_texts(old(headers)@) + header(name@, value@));
}

fn bare_result(kind: &str) -> (r: MediaResult)
    ensures
        r@ == bare_media(kind@),
{
    let format = String::new();
    let filename = String::new();
    assert(format@ =~= Seq::<char>::empty());
    MediaResult {
        media_type: kind.to_owned(),
        data: None,
        url: None,
        format,
        filename,
        role: None,
        file_path: None,
    }
}

fn reply_json(media: MediaResult) -> (r: MediaReply)
    ensures
        r@ == json_reply(media@),
{
    let headers: Vec<(String, String)> = Vec::new();
    assert(pair_texts(headers@) =~= Seq::empty());
    MediaReply { status: 200, headers, body: MediaBody::Json(media) }
}

fn reply_status(kind: &str, status: u16) -> (r: MediaReply)
    ensures
        r@ == status_reply(kind@, status as int),
{
    let mut headers: Vec<(String, String)> = Vec::new();
    set_header(&mut headers, "x-media-status", kind);
    assert(pair_texts(headers@) =~= seq![("x-media-status"@, kind@)]);
    MediaReply { status, headers, body: MediaBody::Text(kind.to_owned()) }
}

fn reply_unsupported(raw: bool) -> (r: MediaReply)
    ensures
        r@ == unsupported_reply(raw),
{
    if raw {
        reply_status("unsupported", 404)
    } else {
        reply_json(bare_result("unsupported"))
    }
}

fn reply_pending(raw: bool) -> (r: MediaReply)
    ensures
        r@ == pending_reply(raw),
{
    if raw {
        reply_status("pending", 202)
    } else {
        reply_json(bare_result("pending"))
    }
}

fn set_ready_headers(headers: &mut Vec<(String, String)>, media: &MediaResult)
    ensures
        pair_texts(final(headers)@) == pair_texts(old(headers)@) + ready_headers(media@),
{
    let ghost before = pair_texts(headers@);
    set_header(headers, "x-media-status", "ready");
    match &media.role {
        Some(role) => try_header(headers, "x-media-role", role.as_str()),
        None => try_header(headers, "x-media-role", "original"),
    }
    try_header(headers, "x-media-filename", media.filename.as_str());
    assert(pair_texts(headers@) =~= before + ready_headers(media@));
}

fn set_disposition(headers: &mut Vec<(String, String)>, filename: &str)
    ensures
        pair_texts(final(headers)@) == pair_texts(old(headers)@) + header(
            "content-disposition"@,
            disposition(filename@),
        ),
{
    let mut value = "inline; filename=\"".to_owned();
    value.append(filename);
    value.append("\"");
    try_header(headers, "content-disposition", value.as_str());
}

fn reply_url(media: &MediaResult, url: &str) -> (r: MediaReply)
    ensures
        r@ == url_reply(media@, url@),
{
    let mut headers: Vec<(String, String)> = Vec::new();
    try_header(&mut headers, "x-media-url", url);
    set_ready_headers(&mut headers, media);
    assert(pair_texts(headers@) =~= header("x-media-url"@, url@) + ready_headers(media@));
    MediaReply { status: 200, headers, body: MediaBody::Empty }
}

fn reply_file(media: &MediaResult, path: &str, len: Option<u64>) -> (r: MediaReply)
    ensures
        r@ == file_reply(media@, path@, len),
{
    let mut headers: Vec<(String, String)> = Vec::new();
    set_header(&mut headers, "content-type", media_mime(media.format.as_str()));
    if let Some(n) = len {
        let text = decimal(n as u128);
        set_header(&mut headers, "content-length", text.as_str());
    }
    set_disposition(&mut headers, media.filename.as_str());
    set_ready_headers(&mut headers, media);
    assert(pair_texts(headers@) =~= file_reply(media@, path@, len).headers);
    MediaReply { status: 200, headers, body: MediaBody::File(path.to_owned()) }
}

/// The raw reply with the bytes of the media, decoded or not.
pub fn reply_bytes(media: &MediaResult, decoded: Result<Vec<u8>, String>) -> (r: MediaReply)
    ensures
        r@ == bytes_reply(media@, decoding(decoded)),
{
    let mut headers: Vec<(String, String)> = Vec::new();
    set_header(&mut headers, "content-type", media_mime(media.format.as_str()));
    set_disposition(&mut headers, media.filename.as_str());
    set_ready_headers(&mut headers, media);
    assert(pair_texts(headers@) =~= bytes_reply(media@, decoding(decoded)).headers);
    let bytes = match decoded {
        Ok(bytes) => bytes,
        Err(_) => {
            let none: Vec<u8> = Vec::new();
            assert(none@ =~= Seq::empty());
            none
        },
    };
    MediaReply { status: 200, headers, body: MediaBody::Bytes(bytes) }
}

fn reply_inline(media: &MediaResult) -> (r: MediaReply)
    ensures
        r@ == inline_reply(media@),
{
    match &media.data {
        Some(data) => reply_bytes(media, base64_decode(data.as_str())),
        None => reply_pending(true),
    }
}

// ---------------------------------------------------------------------------
// Requests
// ---------------------------------------------------------------------------

/// The session and the user whose data is read.
#[derive(Debug, Clone)]
pub struct Account {
    pub session_id: String,
    pub user: String,
}

/// What a request for media waits for.
#[derive(Debug)]
pub enum MediaStage {
    /// The default session.
    Session,
    /// The stored keys of the account.
    StoredKeys { account: Account },
    /// The type of the message.
    Message { account: Account, keys: KeyRing },
    /// The names of the databases of the account on disk.
    Disk { account: Account, keys: KeyRing, base_type: i32 },
    /// What the request for keys waits for.
    MediaKeys { account: Account, request: KeyRequest },
    /// The media of the message.
    Fetch { account: Account, keys: KeyRing },
    /// The file of the media.
    OpenFile { media: MediaResult, path: String },
    /// Nothing: this is the reply.
    Done(MediaReply),
}

/// What the outside world answers.
#[derive(Debug)]
pub enum MediaEvent {
    Session(Option<Session>),
    Stored(KeyRing),
    Message(Option<i64>),
    OnDisk(Vec<String>),
    Key(KeyEvent),
    Media(MediaResult),
    FileOpened { len: Option<u64> },
    FileFailed,
}

/// A request for the media of a message.
#[derive(Debug)]
pub struct MediaRequest {
    pub chat_id: String,
    pub local_id: i64,
    pub raw: bool,
    pub stage: MediaStage,
}

/// What an [`Account`] says.
pub struct Owner {
    pub session_id: Seq<char>,
    pub user: Seq<char>,
}

/// What a [`MediaStage`] is.
pub enum Need {
    Session,
    StoredKeys { account: Owner },
    Message { account: Owner, keys: Map<Seq<char>, Seq<char>> },
    Disk { account: Owner, keys: Map<Seq<char>, Seq<char>>, base_type: i32 },
    MediaKeys { account: Owner, request: Request },
    Fetch { account: Owner, keys: Map<Seq<char>, Seq<char>> },
    OpenFile { media: Media, path: Seq<char> },
    Done(Reply),
}

/// What a [`MediaEvent`] says.
pub enum News {
    Session(Option<Session>),
    Stored(Map<Seq<char>, Seq<char>>),
    Message(Option<i64>),
    OnDisk(Seq<Seq<char>>),
    Key(Answer),
    Media(Media),
    FileOpened { len: Option<u64> },
    FileFailed,
}

/// What a [`MediaRequest`] holds.
pub struct Inquiry {
    pub chat_id: Seq<char>,
    pub local_id: i64,
    pub raw: bool,
    pub need: Need,
}

impl View for Account {
    type V = Owner;

    open spec fn view(&self) -> Owner {
        Owner { session_id: self.session_id@, user: self.user@ }
    }
}

impl View for MediaStage {
    type V = Need;

    open spec fn view(&self) -> Need {
        match *self {
            MediaStage::Session => Need::Session,
            MediaStage::StoredKeys { account } => Need::StoredKeys { account: account@ },
            MediaStage::Message { account, keys } => Need::Message {
                account: account@,
                keys: keys@,
            },
            MediaStage::Disk { account, keys, base_type } => Need::Disk {
                account: account@,
                keys: keys@,
                base_type,
            },
            MediaStage::MediaKeys { account, request } => Need::MediaKeys {
                account: account@,
                request: request@,
            },
            MediaStage::Fetch { account, keys } => Need::Fetch { account: account@, keys: keys@ },
            MediaStage::OpenFile { media, path } => Need::OpenFile { media: media@, path: path@ },
            MediaStage::Done(reply) => Need::Done(reply@),
        }
    }
}

impl View for MediaEvent {
    type V = News;

    open spec fn view(&self) -> News {
        match *self {
            MediaEvent::Session(session) => News::Session(session),
            MediaEvent::Stored(keys) => News::Stored(keys@),
            MediaEvent::Message(local_type) => News::Message(local_type),
            MediaEvent::OnDisk(names) => News::OnDisk(texts(names@)),
            MediaEvent::Key(event) => News::Key(event@),
            MediaEvent::Media(media) => News::Media(media@),
            MediaEvent::FileOpened { len } => News::FileOpened { len },
            MediaEvent::FileFailed => News::FileFailed,
        }
    }
}

impl View for MediaRequest {
    type V = Inquiry;

    open spec fn view(&self) -> Inquiry {
        Inquiry {
            chat_id: self.chat_id@,
            local_id: self.local_id,
            raw: self.raw,
            need: self.stage@,
        }
    }
}

/// The type of a message: the lower half of the stored number, as a signed number.
pub open spec fn base_type(local_type: int) -> int {
    let low = local_type % 0x1_0000_0000;
    if low < 0x8000_0000 {
        low
    } else {
        low - 0x1_0000_0000
    }
}

/// The account that a session is logged in to.
pub open spec fn account_of(session: Option<Session>) -> Option<Owner> {
    match session {
        Some(s) => match s.logged_in_user {
            Some(user) => Some(Owner { session_id: s.id@, user: user@ }),
            None => None,
        },
        None => None,
    }
}

/// After the request for keys went on: the media is fetched once the keys are there.
pub open spec fn keyed(account: Owner, request: Request, raw: bool) -> Need {
    match request.stage {
        Stage::Done(Ok(_)) => Need::Fetch { account, keys: request.keys },
        Stage::Done(Err(_)) => Need::Done(pending_reply(raw)),
        _ => Need::MediaKeys { account, request },
    }
}

/// After the media is there: a raw request is answered by what can be had, a link before a file
/// before the data that came along.
pub open spec fn fetched(media: Media, raw: bool) -> Need {
    if !raw {
        Need::Done(json_reply(media))
    } else if media.media_type == "unsupported"@ {
        Need::Done(unsupported_reply(true))
    } else if media.media_type == "pending"@ {
        Need::Done(pending_reply(true))
    } else if media.url is Some {
        Need::Done(url_reply(media, media.url->Some_0))
    } else if media.file_path is Some {
        Need::OpenFile { media, path: media.file_path->Some_0 }
    } else {
        Need::Done(inline_reply(media))
    }
}

/// What a request waits for after an answer. An answer that it does not wait for changes nothing.
pub open spec fn informed(q: Inquiry, news: News) -> Need {
    match (q.need, news) {
        (Need::Session, News::Session(session)) => match account_of(session) {
            Some(account) => Need::StoredKeys { account },
            None => Need::Done(unsupported_reply(q.raw)),
        },
        (Need::StoredKeys { account }, News::Stored(keys)) => Need::Message { account, keys },
        (Need::Message { account, keys }, News::Message(local_type)) => match local_type {
            Some(t) => Need::Disk { account, keys, base_type: base_type(t as int) as i32 },
            None => Need::Done(unsupported_reply(q.raw)),
        },
        (Need::Disk { account, keys, base_type }, News::OnDisk(on_disk)) => keyed(
            account,
            asked(base_type, on_disk, keys),
            q.raw,
        ),
        (Need::MediaKeys { account, request }, News::Key(answer)) => keyed(
            account,
            answered(request, answer),
            q.raw,
        ),
        (Need::Fetch { .. }, News::Media(media)) => fetched(media, q.raw),
        (Need::OpenFile { media, path }, News::FileOpened { len }) => Need::Done(
            file_reply(media, path, len),
        ),
        (Need::OpenFile { media, .. }, News::FileFailed) => Need::Done(inline_reply(media)),
        _ => q.need,
    }
}

/// The type of a message by the number stored with it.
pub fn message_base_type(local_type: i64) -> (r: i32)
    ensures
        r == base_type(local_type as int),
{
    let low: u32 = (local_type & 0xFFFF_FFFF) as u32;
    assert((local_type & 0xFFFF_FFFF) as u32 == local_type % 0x1_0000_0000) by (bit_vector);
    if low < 0x8000_0000 {
        low as i32
    } else {
        (low as i64 - 0x1_0000_0000) as i32
    }
}

fn go_on(account: Account, request: KeyRequest, raw: bool) -> (r: MediaStage)
    ensures
        r@ == keyed(account@, request@, raw),
{
    match &request.stage {
        KeyStage::Done(Ok(_)) => MediaStage::Fetch { account, keys: request.keys },
        KeyStage::Done(Err(_)) => MediaStage::Done(reply_pending(raw)),
        _ => MediaStage::MediaKeys { account, request },
    }
}

fn reply_with(media: MediaResult, raw: bool) -> (r: MediaStage)
    ensures
        r@ == fetched(media@, raw),
{
    if !raw {
        return MediaStage::Done(reply_json(media));
    }
    if same_text(media.media_type.as_str(), "unsupported") {
        return MediaStage::Done(reply_unsupported(true));
    }
    if same_text(media.media_type.as_str(), "pending") {
        return MediaStage::Done(reply_pending(true));
    }
    if let Some(url) = &media.url {
        return MediaStage::Done(reply_url(&media, url.as_str()));
    }
    if let Some(path) = &media.file_path {
        let path = path.clone();
        return MediaStage::OpenFile { media, path };
    }
    MediaStage::Done(reply_inline(&media))
}

/// Begins a request for the media of a message.
pub fn get_media(chat_id: String, local_id: i64, params: MediaParams) -> (r: MediaRequest)
    ensures
        r@ == (Inquiry { chat_id: chat_id@, local_id, raw: params.raw, need: Need::Session }),
{
    MediaRequest { chat_id, local_id, raw: params.raw, stage: MediaStage::Session }
}

impl MediaRequest {
    /// Takes in an answer.
    pub fn resume(self, event: MediaEvent) -> (r: MediaRequest)
        ensures
            r@ == (Inquiry { need: informed(self@, event@), ..self@ }),
    {
        let MediaRequest { chat_id, local_id, raw, stage } = self;
        let stage = match (stage, event) {
            (MediaStage::Session, MediaEvent::Session(session)) => match session {
                Some(s) => match s.logged_in_user {
                    Some(user) => MediaStage::StoredKeys {
                        account: Account { session_id: s.id, user },
                    },
                    None => MediaStage::Done(reply_unsupported(raw)),
                },
                None => MediaStage::Done(reply_unsupported(raw)),
            },
            (MediaStage::StoredKeys { account }, MediaEvent::Stored(keys)) => {
                MediaStage::Message { account, keys }
            },
            (MediaStage::Message { account, keys }, MediaEvent::Message(local_type)) => {
                match local_type {
                    Some(t) => MediaStage::Disk { account, keys, base_type: message_base_type(t) },
                    None => MediaStage::Done(reply_unsupported(raw)),
                }
            },
            (MediaStage::Disk { account, keys, base_type }, MediaEvent::OnDisk(on_disk)) => {
                go_on(account, ensure_media_keys_for_message(base_type, on_disk, keys), raw)
            },
            (MediaStage::MediaKeys { account, request }, MediaEvent::Key(event)) => {
                let mut request = request;
                request.resume(event);
                go_on(account, request, raw)
            },
            (MediaStage::Fetch { .. }, MediaEvent::Media(media)) => reply_with(media, raw),
            (MediaStage::OpenFile { media, path }, MediaEvent::FileOpened { len }) => {
                MediaStage::Done(reply_file(&media, path.as_str(), len))
            },
            (MediaStage::OpenFile { media, .. }, MediaEvent::FileFailed) => {
                MediaStage::Done(reply_inline(&media))
            },
            (stage, _) => stage,
        };
        MediaRequest { chat_id, local_id, raw, stage }
    }
}

// ---------------------------------------------------------------------------
// Laws
// ---------------------------------------------------------------------------

/// How far a request has got.
pub open spec fn media_progress(need: Need) -> int {
    match need {
        Need::Session => 0,
        Need::StoredKeys { .. } => 1,
        Need::Message { .. } => 2,
        Need::Disk { .. } => 3,
        Need::MediaKeys { .. } => 4,
        Need::Fetch { .. } => 5,
        Need::OpenFile { .. } => 6,
        Need::Done(_) => 7,
    }
}

/// A request never goes back, and a reply is final.
pub proof fn law_media_request_advances(q: Inquiry, news: News)
    ensures
        media_progress(q.need) <= media_progress(informed(q, news)),
        q.need is Done ==> informed(q, news) == q.need,
{
}

/// Without a session, without a user who is logged in, or without the message, the reply is that
/// the media is unsupported.
pub proof fn law_unknown_media_is_unsupported(q: Inquiry, news: News)
    requires
        (q.need is Session && news is Session && account_of(news->Session_0) is None) || (
        q.need is Message && news == News::Message(None)),
    ensures
        informed(q, news) == Need::Done(unsupported_reply(q.raw)),
{
}

/// Of all messages only voice messages may wait for keys: any other goes on with the keys that
/// are stored, whatever databases are on disk.
pub proof fn law_only_voice_waits_for_keys(q: Inquiry, on_disk: Seq<Seq<char>>)
    requires
        q.need is Disk,
        q.need->Disk_base_type != VOICE,
    ensures
        informed(q, News::OnDisk(on_disk)) == (Need::Fetch {
            account: q.need->Disk_account,
            keys: q.need->Disk_keys,
        }),
{
}

/// A request that is not raw never opens a file, and is answered with a media result and nothing
/// else.
pub proof fn law_plain_reply_is_json(q: Inquiry, news: News)
    requires
        !q.raw,
        !(q.need is Done),
        !(q.need is OpenFile),
    ensures
        !(informed(q, news) is OpenFile),
        informed(q, news) is Done ==> informed(q, news)->Done_0.status == 200 && informed(
            q,
            news,
        )->Done_0.body is Json,
{
}

/// Whether a raw reply says in its headers what its status says.
pub open spec fn tells_status(r: Reply) -> bool {
    ||| r.status == 200 && r.headers.contains(("x-media-status"@, "ready"@)) && (r.body is Empty
        || r.body is File || r.body is Bytes)
    ||| r.status == 202 && r.headers.contains(("x-media-status"@, "pending"@)) && r.body
        == Body::Text("pending"@)
    ||| r.status == 404 && r.headers.contains(("x-media-status"@, "unsupported"@)) && r.body
        == Body::Text("unsupported"@)
}

proof fn lemma_ready_is_there(media: Media, front: Seq<(Seq<char>, Seq<char>)>)
    ensures
        (front + ready_headers(media)).contains(("x-media-status"@, "ready"@)),
{
    let all = front + ready_headers(media);
    assert(all[front.len() as int] == ("x-media-status"@, "ready"@));
}

/// Every raw reply has a status, and a header that says the same: ready, pending or unsupported.
pub proof fn law_raw_reply_tells_status(q: Inquiry, news: News)
    requires
        q.raw,
        !(q.need is Done),
        informed(q, news) is Done,
    ensures
        tells_status(informed(q, news)->Done_0),
{
    let kinds = (seq![("x-media-status"@, "pending"@)], seq![("x-media-status"@, "unsupported"@)]);
    assert(kinds.0[0] == ("x-media-status"@, "pending"@));
    assert(kinds.1[0] == ("x-media-status"@, "unsupported"@));
    assert forall|media: Media, url: Seq<char>| #[trigger]
        tells_status(url_reply(media, url)) by {
        lemma_ready_is_there(media, header("x-media-url"@, url));
    }
    assert forall|media: Media, path: Seq<char>, len: Option<u64>| #[trigger]
        tells_status(file_reply(media, path, len)) by {
        lemma_ready_is_there(
            media,
            seq![("content-type"@, mime(media.format))] + match len {
                Some(n) => seq![("content-length"@, decimal_text(n as nat))],
                None => Seq::empty(),
            } + header("content-disposition"@, disposition(media.filename)),
        );
    }
    assert forall|media: Media, decoded: Result<Seq<u8>, Seq<char>>| #[trigger]
        tells_status(bytes_reply(media, decoded)) by {
        lemma_ready_is_there(
            media,
            seq![("content-type"@, mime(media.format))] + header(
                "content-disposition"@,
                disposition(media.filename),
            ),
        );
    }
    assert(tells_status(pending_reply(true)));
    assert(tells_status(unsupported_reply(true)));
}

/// A file that cannot be opened is as good as none: the reply is the one that the media would get
/// without it.
pub proof fn law_unreadable_file_is_no_file(q: Inquiry, q2: Inquiry, media: Media)
    requires
        q.need is Fetch,
        q.raw,
        informed(q, News::Media(media)) is OpenFile,
        q2.need == informed(q, News::Media(media)),
    ensures
        informed(q2, News::FileFailed) == informed(
            q,
            News::Media(Media { file_path: None, ..media }),
        ),
{
}

/// Whether the values of all headers are fit for headers.
pub open spec fn headers_are_fit(headers: Seq<(Seq<char>, Seq<char>)>) -> bool {
    forall|i: int| 0 <= i < headers.len() ==> is_header_text((#[trigger] headers[i]).1)
}

proof fn lemma_decimal_is_fit(n: nat)
    ensures
        is_header_text(decimal_text(n)),
    decreases n,
{
    if n >= 10 {
        lemma_decimal_is_fit(n / 10);
    }
}

proof fn lemma_fixed_values_are_fit(format: Seq<char>)
    ensures
        is_header_text(mime(format)),
        is_header_text("ready"@),
        is_header_text("pending"@),
        is_header_text("unsupported"@),
{
    reveal_strlit("image/jpeg");
    reveal_strlit("image/png");
    reveal_strlit("image/gif");
    reveal_strlit("audio/mpeg");
    reveal_strlit("video/mp4");
    reveal_strlit("application/pdf");
    reveal_strlit("application/octet-stream");
    reveal_strlit("ready");
    reveal_strlit("pending");
    reveal_strlit("unsupported");
}

/// No reply has a header with a value that is not fit for one, whatever names and links the media
/// comes with: such headers are left out.
pub proof fn law_headers_are_fit(q: Inquiry, news: News)
    requires
        !(q.need is Done),
        informed(q, news) is Done,
    ensures
        headers_are_fit(informed(q, news)->Done_0.headers),
{
    lemma_fixed_values_are_fit(Seq::empty());
    assert forall|media: Media| headers_are_fit(#[trigger] ready_headers(media)) by {}
    assert forall|media: Media, url: Seq<char>|
        headers_are_fit((#[trigger] url_reply(media, url)).headers) by {
        assert(headers_are_fit(ready_headers(media)));
    }
    assert forall|media: Media, path: Seq<char>, len: Option<u64>|
        headers_are_fit((#[trigger] file_reply(media, path, len)).headers) by {
        assert(headers_are_fit(ready_headers(media)));
        lemma_fixed_values_are_fit(media.format);
        if len is Some {
            lemma_decimal_is_fit(len->Some_0 as nat);
        }
    }
    assert forall|media: Media, decoded: Result<Seq<u8>, Seq<char>>|
        headers_are_fit((#[trigger] bytes_reply(media, decoded)).headers) by {
        assert(headers_are_fit(ready_headers(media)));
        lemma_fixed_values_are_fit(media.format);
    }
    assert(headers_are_fit(pending_reply(q.raw).headers));
    assert(headers_are_fit(unsupported_reply(q.raw).headers));
}

// ---------------------------------------------------------------------------
// Laws: what each step and each reply is for
// ---------------------------------------------------------------------------

/// Nothing of a media result is lost in what it is taken to say.
pub proof fn law_media_say_all(m: MediaResult)
    ensures
        m@.media_type == m.media_type@,
        m@.format == m.format@,
        m@.filename == m.filename@,
        m@.data is Some <==> m.data is Some,
        m.data is Some ==> m@.data == Some(m.data->Some_0@),
        m@.url is Some <==> m.url is Some,
        m.url is Some ==> m@.url == Some(m.url->Some_0@),
        m@.role is Some <==> m.role is Some,
        m.role is Some ==> m@.role == Some(m.role->Some_0@),
        m@.file_path is Some <==> m.file_path is Some,
        m.file_path is Some ==> m@.file_path == Some(m.file_path->Some_0@),
{
}

/// Nothing of a reply is lost in what it is taken to say.
pub proof fn law_replies_say_all(r: MediaReply)
    ensures
        r@.status == r.status,
        r@.headers == pair_texts(r.headers@),
        r.body is Json ==> r@.body == Body::Json(r.body->Json_0@),
        r.body is Text ==> r@.body == Body::Text(r.body->Text_0@),
        r.body is Empty ==> r@.body is Empty,
        r.body is File ==> r@.body == Body::File(r.body->File_0@),
        r.body is Bytes ==> r@.body == Body::Bytes(r.body->Bytes_0@),
{
}

/// Nothing of a request is lost in what it is taken to hold.
pub proof fn law_requests_say_all(q: MediaRequest)
    ensures
        q@.chat_id == q.chat_id@,
        q@.local_id == q.local_id,
        q@.raw == q.raw,
        q.stage is Session <==> q@.need is Session,
        q.stage is StoredKeys ==> q@.need == (Need::StoredKeys {
            account: q.stage->StoredKeys_account@,
        }),
        q.stage is Message ==> q@.need == (Need::Message {
            account: q.stage->Message_account@,
            keys: q.stage->Message_keys@,
        }),
        q.stage is Disk ==> q@.need == (Need::Disk {
            account: q.stage->Disk_account@,
            keys: q.stage->Disk_keys@,
            base_type: q.stage->base_type,
        }),
        q.stage is MediaKeys ==> q@.need == (Need::MediaKeys {
            account: q.stage->MediaKeys_account@,
            request: q.stage->request@,
        }),
        q.stage is Fetch ==> q@.need == (Need::Fetch {
            account: q.stage->Fetch_account@,
            keys: q.stage->Fetch_keys@,
        }),
        q.stage is OpenFile ==> q@.need == (Need::OpenFile {
            media: q.stage->media@,
            path: q.stage->path@,
        }),
        q.stage is Done ==> q@.need == Need::Done(q.stage->Done_0@),
{
}

/// Nothing of an answer is lost in what it is taken to say.
pub proof fn law_answers_say_all(e: MediaEvent, a: Account)
    ensures
        e is Session ==> e@ == News::Session(e->Session_0),
        e is Stored ==> e@ == News::Stored(e->Stored_0@),
        e is Message ==> e@ == News::Message(e->Message_0),
        e is OnDisk ==> e@ == News::OnDisk(texts(e->OnDisk_0@)),
        e is Key ==> e@ == News::Key(e->Key_0@),
        e is Media ==> e@ == News::Media(e->Media_0@),
        e is FileOpened ==> e@ == (News::FileOpened { len: e->len }),
        e is FileFailed ==> e@ is FileFailed,
        a@.session_id == a.session_id@,
        a@.user == a.user@,
{
}

/// A plain request that waits for its media is answered with that media, all of it: the reply is a
/// success without headers of its own, and the media is there field for field.
pub proof fn law_plain_request_gets_its_media(q: Inquiry, m: Media)
    requires
        !q.raw,
        q.need is Fetch,
    ensures
        ({
            let done = informed(q, News::Media(m));
            &&& done is Done
            &&& done->Done_0.status == 200
            &&& done->Done_0.headers.len() == 0
            &&& done->Done_0.body is Json
            &&& done->Done_0.body->Json_0.media_type == m.media_type
            &&& done->Done_0.body->Json_0.data == m.data
            &&& done->Done_0.body->Json_0.url == m.url
            &&& done->Done_0.body->Json_0.format == m.format
            &&& done->Done_0.body->Json_0.filename == m.filename
            &&& done->Done_0.body->Json_0.role == m.role
            &&& done->Done_0.body->Json_0.file_path == m.file_path
        }),
{
}

/// Whether a plain reply says of which kind the media is, and nothing more.
pub open spec fn says_only(reply: Reply, kind: Seq<char>) -> bool {
    &&& reply.status == 200
    &&& reply.headers.len() == 0
    &&& reply.body is Json
    &&& reply.body->Json_0.media_type == kind
    &&& reply.body->Json_0.data is None
    &&& reply.body->Json_0.url is None
    &&& reply.body->Json_0.role is None
    &&& reply.body->Json_0.file_path is None
    &&& reply.body->Json_0.format.len() == 0
    &&& reply.body->Json_0.filename.len() == 0
}

/// Whether a raw reply says by its status, its one header and its text that there is no media.
pub open spec fn tells_only(reply: Reply, status: int, kind: Seq<char>) -> bool {
    &&& reply.status == status
    &&& reply.headers == seq![("x-media-status"@, kind)]
    &&& reply.body == Body::Text(kind)
}

/// Without an account, or without the message, the reply is that the media is unsupported; where the
/// keys cannot be had in time it is that the media is pending. A plain request is told so in a media
/// result, a raw one by the status of the reply.
pub proof fn law_missing_media_is_told(q: Inquiry, news: News)
    ensures
        (q.need is Session && news is Session && account_of(news->Session_0) is None) || (
        q.need is Message && news is Message && news->Message_0 is None) ==> {
            let done = informed(q, news);
            &&& done is Done
            &&& !q.raw ==> says_only(done->Done_0, "unsupported"@)
            &&& q.raw ==> tells_only(done->Done_0, 404, "unsupported"@)
        },
        q.need is MediaKeys && news is Key && answered(
            q.need->request,
            news->Key_0,
        ).stage == Stage::Done(Err(())) ==> {
            let done = informed(q, news);
            &&& done is Done
            &&& !q.raw ==> says_only(done->Done_0, "pending"@)
            &&& q.raw ==> tells_only(done->Done_0, 202, "pending"@)
        },
{
}

/// A request learns whose data to read from the session that is logged in, reads the stored keys of
/// that account, then the type of the message, then what is on disk. What it has learned it keeps.
pub proof fn law_media_request_goes_on(q: Inquiry, news: News)
    ensures
        q.need is Session && news is Session && account_of(news->Session_0) is Some ==> informed(
            q,
            news,
        ) == (Need::StoredKeys { account: account_of(news->Session_0)->Some_0 }),
        q.need is StoredKeys && news is Stored ==> informed(q, news) == (Need::Message {
            account: q.need->StoredKeys_account,
            keys: news->Stored_0,
        }),
        q.need is Message && news is Message && news->Message_0 is Some ==> {
            let next = informed(q, news);
            &&& next is Disk
            &&& next->Disk_account == q.need->Message_account
            &&& next->Disk_keys == q.need->Message_keys
            &&& (next->Disk_base_type - news->Message_0->Some_0) % 0x1_0000_0000 == 0
        },
{
    if q.need is Message && news is Message && news->Message_0 is Some {
        law_base_type(news->Message_0->Some_0 as int);
    }
}

/// The account of a session is its own id and the user who is logged in to it; there is none without
/// a session, and none without a user.
pub proof fn law_account_is_that_of_the_session(session: Option<Session>)
    ensures
        account_of(session) is Some <==> session is Some && session->Some_0.logged_in_user is Some,
        account_of(session) is Some ==> account_of(session)->Some_0.session_id
            == session->Some_0.id@ && account_of(session)->Some_0.user
            == session->Some_0.logged_in_user->Some_0@,
{
}

/// The type of a message is what 32 bits keep of the stored number, read as a signed number.
pub proof fn law_base_type(t: int)
    ensures
        -0x8000_0000 <= base_type(t) < 0x8000_0000,
        (base_type(t) - t) % 0x1_0000_0000 == 0,
{
}

/// The keys come before the media: once the request for keys is done the media is fetched with the
/// keys that it has then, and until then the request for keys goes on.
pub proof fn law_media_waits_for_its_keys(q: Inquiry, on_disk: Seq<Seq<char>>, answer: Answer)
    ensures
        q.need is Disk ==> {
            let request = asked(q.need->Disk_base_type, on_disk, q.need->Disk_keys);
            let next = informed(q, News::OnDisk(on_disk));
            &&& request.stage is Lock ==> next == (Need::MediaKeys {
                account: q.need->Disk_account,
                request,
            })
            &&& request.stage is Done ==> next == (Need::Fetch {
                account: q.need->Disk_account,
                keys: q.need->Disk_keys,
            })
        },
        q.need is MediaKeys ==> {
            let request = answered(q.need->request, answer);
            let next = informed(q, News::Key(answer));
            &&& !(request.stage is Done) ==> next == (Need::MediaKeys {
                account: q.need->MediaKeys_account,
                request,
            })
            &&& request.stage is Done && request.stage->Done_0 is Ok ==> next == (Need::Fetch {
                account: q.need->MediaKeys_account,
                keys: request.keys,
            })
        },
{
}

/// The headers that say of what media is handed out raw, fit or not.
spec fn all_ready_headers(m: Media) -> Seq<(Seq<char>, Seq<char>)> {
    seq![
        ("x-media-status"@, "ready"@),
        (
            "x-media-role"@,
            if m.role is Some {
                m.role->Some_0
            } else {
                "original"@
            },
        ),
        ("x-media-filename"@, m.filename),
    ]
}

/// Headers whose values are fit for headers.
pub open spec fn fit_only(headers: Seq<(Seq<char>, Seq<char>)>) -> Seq<(Seq<char>, Seq<char>)> {
    headers.filter(|h: (Seq<char>, Seq<char>)| is_header_text(h.1))
}

proof fn lemma_fit_sum(a: Seq<(Seq<char>, Seq<char>)>, b: Seq<(Seq<char>, Seq<char>)>)
    ensures
        fit_only(a + b) == fit_only(a) + fit_only(b),
{
    lemma_filter_sum(a, b, |h: (Seq<char>, Seq<char>)| is_header_text(h.1));
}

proof fn lemma_fit_one(name: Seq<char>, value: Seq<char>)
    ensures
        fit_only(seq![(name, value)]) == header(name, value),
{
    let one = seq![(name, value)];
    reveal_with_fuel(Seq::filter, 2);
    assert(one.drop_last() =~= Seq::empty());
    assert(fit_only(one) =~= header(name, value));
}

proof fn lemma_fit_ready(m: Media)
    ensures
        fit_only(all_ready_headers(m)) == ready_headers(m),
{
    let role = if m.role is Some {
        m.role->Some_0
    } else {
        "original"@
    };
    lemma_fixed_values_are_fit(m.format);
    assert(all_ready_headers(m) =~= seq![("x-media-status"@, "ready"@)] + seq![
        ("x-media-role"@, role),
    ] + seq![("x-media-filename"@, m.filename)]);
    lemma_fit_sum(seq![("x-media-status"@, "ready"@)], seq![("x-media-role"@, role)]);
    lemma_fit_sum(
        seq![("x-media-status"@, "ready"@)] + seq![("x-media-role"@, role)],
        seq![("x-media-filename"@, m.filename)],
    );
    lemma_fit_one("x-media-status"@, "ready"@);
    lemma_fit_one("x-media-role"@, role);
    lemma_fit_one("x-media-filename"@, m.filename);
}

/// A raw request that waits for its media gets it the first way that there is: what is unsupported
/// or pending is said to be so; a link is given in a header; a file is to be opened; else the data
/// that came along is decoded, and without any the media is pending.
pub proof fn law_raw_request_gets_its_media(q: Inquiry, m: Media)
    requires
        q.raw,
        q.need is Fetch,
    ensures
        ({
            let next = informed(q, News::Media(m));
            let barred = m.media_type == "unsupported"@ || m.media_type == "pending"@;
            &&& m.media_type == "unsupported"@ ==> next is Done && tells_only(
                next->Done_0,
                404,
                "unsupported"@,
            )
            &&& m.media_type == "pending"@ ==> next is Done && tells_only(
                next->Done_0,
                202,
                "pending"@,
            )
            &&& !barred && m.url is Some ==> {
                &&& next is Done
                &&& next->Done_0.status == 200
                &&& next->Done_0.body is Empty
                &&& next->Done_0.headers == fit_only(
                    seq![
                        ("x-media-url"@, m.url->Some_0),
                        ("x-media-status"@, "ready"@),
                        (
                            "x-media-role"@,
                            if m.role is Some {
                                m.role->Some_0
                            } else {
                                "original"@
                            },
                        ),
                        ("x-media-filename"@, m.filename),
                    ],
                )
            }
            &&& !barred && m.url is None && m.file_path is Some ==> next is OpenFile
                && next->OpenFile_media == m && next->OpenFile_path == m.file_path->Some_0
            &&& !barred && m.url is None && m.file_path is None && m.data is None ==> next is Done
                && tells_only(next->Done_0, 202, "pending"@)
            &&& !barred && m.url is None && m.file_path is None && m.data is Some ==> next is Done
                && holds_data(next->Done_0, m, base64_decoded(m.data->Some_0))
        }),
{
    reveal_strlit("unsupported");
    reveal_strlit("pending");
    assert("unsupported"@.len() != "pending"@.len());
    lemma_fit_ready(m);
    if m.url is Some {
        let url = seq![("x-media-url"@, m.url->Some_0)];
        lemma_fit_one("x-media-url"@, m.url->Some_0);
        lemma_fit_sum(url, all_ready_headers(m));
        assert(url + all_ready_headers(m) =~= seq![
            ("x-media-url"@, m.url->Some_0),
            ("x-media-status"@, "ready"@),
            (
                "x-media-role"@,
                if m.role is Some {
                    m.role->Some_0
                } else {
                    "original"@
                },
            ),
            ("x-media-filename"@, m.filename),
        ]);
    }
    if m.data is Some {
        law_decoded_media_is_handed_out(m, base64_decoded(m.data->Some_0));
    }
}

/// Whether a reply holds the decoded data of media, nothing of it where it could not be decoded,
/// under headers that say what it is.
pub open spec fn holds_data(reply: Reply, m: Media, decoded: Result<Seq<u8>, Seq<char>>) -> bool {
    &&& reply.status == 200
    &&& reply.body is Bytes
    &&& decoded is Ok ==> reply.body->Bytes_0 == decoded->Ok_0
    &&& decoded is Err ==> reply.body->Bytes_0.len() == 0
    &&& reply.headers == fit_only(
        seq![
            ("content-type"@, mime(m.format)),
            ("content-disposition"@, "inline; filename=\""@ + m.filename + "\""@),
            ("x-media-status"@, "ready"@),
            (
                "x-media-role"@,
                if m.role is Some {
                    m.role->Some_0
                } else {
                    "original"@
                },
            ),
            ("x-media-filename"@, m.filename),
        ],
    )
}

/// Decoded data is handed out byte for byte, under headers that say what it is.
pub proof fn law_decoded_media_is_handed_out(m: Media, decoded: Result<Seq<u8>, Seq<char>>)
    ensures
        holds_data(bytes_reply(m, decoded), m, decoded),
{
    let kind = seq![("content-type"@, mime(m.format))];
    let shown = seq![("content-disposition"@, "inline; filename=\""@ + m.filename + "\""@)];
    lemma_fixed_values_are_fit(m.format);
    lemma_fit_ready(m);
    lemma_fit_one("content-type"@, mime(m.format));
    lemma_fit_one("content-disposition"@, "inline; filename=\""@ + m.filename + "\""@);
    lemma_fit_sum(kind, shown);
    lemma_fit_sum(kind + shown, all_ready_headers(m));
    assert(kind + shown + all_ready_headers(m) =~= seq![
        ("content-type"@, mime(m.format)),
        ("content-disposition"@, "inline; filename=\""@ + m.filename + "\""@),
        ("x-media-status"@, "ready"@),
        (
            "x-media-role"@,
            if m.role is Some {
                m.role->Some_0
            } else {
                "original"@
            },
        ),
        ("x-media-filename"@, m.filename),
    ]);
}

/// A file that was opened is streamed: the reply names that very file, gives its length where it is
/// known, and says what it is. One that cannot be opened is passed over for the data that came
/// along.
pub proof fn law_opened_file_is_streamed(q: Inquiry, len: Option<u64>)
    requires
        q.need is OpenFile,
    ensures
        ({
            let m = q.need->OpenFile_media;
            let done = informed(q, News::FileOpened { len });
            let length = if len is Some {
                seq![("content-length"@, decimal_text(len->Some_0 as nat))]
            } else {
                Seq::<(Seq<char>, Seq<char>)>::empty()
            };
            &&& done is Done
            &&& done->Done_0.status == 200
            &&& done->Done_0.body == Body::File(q.need->OpenFile_path)
            &&& done->Done_0.headers == fit_only(
                seq![("content-type"@, mime(m.format))] + length + seq![
                    ("content-disposition"@, "inline; filename=\""@ + m.filename + "\""@),
                    ("x-media-status"@, "ready"@),
                    (
                        "x-media-role"@,
                        if m.role is Some {
                            m.role->Some_0
                        } else {
                            "original"@
                        },
                    ),
                    ("x-media-filename"@, m.filename),
                ],
            )
        }),
        ({
            let m = q.need->OpenFile_media;
            let done = informed(q, News::FileFailed);
            &&& done is Done
            &&& m.data is Some ==> holds_data(done->Done_0, m, base64_decoded(m.data->Some_0))
            &&& m.data is None ==> tells_only(done->Done_0, 202, "pending"@)
        }),
{
    let m = q.need->OpenFile_media;
    let none = Seq::<(Seq<char>, Seq<char>)>::empty();
    let kind = seq![("content-type"@, mime(m.format))];
    let length = if len is Some {
        seq![("content-length"@, decimal_text(len->Some_0 as nat))]
    } else {
        none
    };
    let shown = seq![("content-disposition"@, "inline; filename=\""@ + m.filename + "\""@)];
    lemma_fixed_values_are_fit(m.format);
    lemma_fit_ready(m);
    lemma_fit_one("content-type"@, mime(m.format));
    lemma_fit_one("content-disposition"@, "inline; filename=\""@ + m.filename + "\""@);
    if len is Some {
        lemma_decimal_is_fit(len->Some_0 as nat);
        lemma_fit_one("content-length"@, decimal_text(len->Some_0 as nat));
    }
    assert(fit_only(none) =~= none) by {
        reveal(Seq::filter);
    }
    lemma_fit_sum(kind, length);
    lemma_fit_sum(kind + length, shown);
    lemma_fit_sum(kind + length + shown, all_ready_headers(m));
    assert(kind + length + shown + all_ready_headers(m) =~= kind + length + seq![
        ("content-disposition"@, "inline; filename=\""@ + m.filename + "\""@),
        ("x-media-status"@, "ready"@),
        (
            "x-media-role"@,
            if m.role is Some {
                m.role->Some_0
            } else {
                "original"@
            },
        ),
        ("x-media-filename"@, m.filename),
    ]);
    if m.data is Some {
        law_decoded_media_is_handed_out(m, base64_decoded(m.data->Some_0));
    }
}

/// The type of a file goes by its format, whatever the case; a format that is not known is handed
/// out as plain bytes.
pub proof fn law_types_go_by_format(format: Seq<char>)
    ensures
        ({
            let f = lowercase(format);
            &&& f == "jpg"@ || f == "jpeg"@ ==> mime(format) == "image/jpeg"@
            &&& f == "png"@ ==> mime(format) == "image/png"@
            &&& f == "gif"@ ==> mime(format) == "image/gif"@
            &&& f == "mp3"@ ==> mime(format) == "audio/mpeg"@
            &&& f == "mp4"@ ==> mime(format) == "video/mp4"@
            &&& f == "pdf"@ ==> mime(format) == "application/pdf"@
            &&& f != "jpg"@ && f != "jpeg"@ && f != "png"@ && f != "gif"@ && f != "mp3"@ && f
                != "mp4"@ && f != "pdf"@ ==> mime(format) == "application/octet-stream"@
        }),
{
    reveal_strlit("jpg");
    reveal_strlit("jpeg");
    reveal_strlit("png");
    reveal_strlit("gif");
    reveal_strlit("mp3");
    reveal_strlit("mp4");
    reveal_strlit("pdf");
    assert("jpg"@[0] == 'j' && "jpeg"@[0] == 'j' && "png"@[1] == 'n' && "gif"@[0] == 'g' && "mp3"@[2]
        == '3' && "mp4"@[2] == '4' && "pdf"@[1] == 'd');
    assert("png"@[0] == 'p' && "mp3"@[0] == 'm' && "mp4"@[0] == 'm' && "pdf"@[0] == 'p');
}

/// A text is fit for a header exactly where it holds no control character but tabs.
pub proof fn law_fit_for_a_header(s: Seq<char>)
    ensures
        is_header_text(s) <==> forall|i: int|
            0 <= i < s.len() ==> (#[trigger] s[i]) == '\t' || (s[i] != '\u{7f}' && s[i]
                > '\u{1f}'),
{
}

/// An answer that a request does not wait for changes nothing.
pub proof fn law_unasked_news_change_nothing(q: Inquiry, news: News)
    requires
        !(q.need is Session && news is Session),
        !(q.need is StoredKeys && news is Stored),
        !(q.need is Message && news is Message),
        !(q.need is Disk && news is OnDisk),
        !(q.need is MediaKeys && news is Key),
        !(q.need is Fetch && news is Media),
        !(q.need is OpenFile && (news is FileOpened || news is FileFailed)),
    ensures
        informed(q, news) == q.need,
{
}

/// What was decoded is what it is taken for, bytes or a message.
pub proof fn law_decodings_say_all(r: Result<Vec<u8>, String>)
    ensures
        r is Ok ==> decoding(r) == Ok::<Seq<u8>, Seq<char>>(r->Ok_0@),
        r is Err ==> decoding(r) == Err::<Seq<u8>, Seq<char>>(r->Err_0@),
{
}

} // verus!

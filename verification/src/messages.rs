//! Listing and sending messages: which outside work a request needs, one after the other, and
//! what it is answered with.

use crate::keys::{
    KeyRing, has_message_key, is_message_db, lacks_message_key, message_key_missing,
};
use crate::media::{Account, Owner, account_of, base64_decode, base64_decoded, decoding};
use crate::send_message::{Orders, SendMessageParams};
use crate::session::Session;
use crate::text::{decimal, decimal_text, opt_text, same_text, texts};
use vstd::prelude::*;

verus! {

// ---------------------------------------------------------------------------
// Listing
// ---------------------------------------------------------------------------

/// Which part of a chat is listed.
#[derive(Debug, Clone, Copy)]
pub struct ListParams {
    pub limit: i64,
    pub offset: i64,
}

/// How many messages are listed where the request does not say.
pub fn default_limit() -> (r: i64)
    ensures
        r == 50,
{
    50
}

impl Default for ListParams {
    fn default() -> (r: ListParams)
        ensures
            r.limit == 50,
            r.offset == 0,
    {
        ListParams { limit: default_limit(), offset: 0 }
    }
}

/// What a request for a list of messages waits for.
#[derive(Debug)]
pub enum ListStage {
    /// The default session.
    Session,
    /// The stored keys of the account.
    StoredKeys { account: Account },
    /// The names of the databases of the account on disk.
    Disk { account: Account, keys: KeyRing },
    /// The process of the chat client.
    FindProcess { account: Account, keys: KeyRing },
    /// The keys that the process holds.
    Extract { account: Account, keys: KeyRing, pid: i64 },
    /// Storing what was extracted, then the stored keys.
    SaveAndReload { account: Account, extracted: KeyRing },
    /// The messages, read with these keys.
    Read { account: Account, keys: KeyRing },
    /// Nothing: the list is empty.
    Empty,
}

/// What the outside world answers.
#[derive(Debug)]
pub enum ListEvent {
    Session(Option<Session>),
    Stored(KeyRing),
    OnDisk(Vec<String>),
    Process(Option<i64>),
    Extracted(KeyRing),
}

/// A request for a list of messages.
#[derive(Debug)]
pub struct ListRequest {
    pub chat_id: String,
    pub params: ListParams,
    pub stage: ListStage,
}

/// What a [`ListStage`] is.
pub enum Step {
    Session,
    StoredKeys { account: Owner },
    Disk { account: Owner, keys: Map<Seq<char>, Seq<char>> },
    FindProcess { account: Owner, keys: Map<Seq<char>, Seq<char>> },
    Extract { account: Owner, keys: Map<Seq<char>, Seq<char>>, pid: i64 },
    SaveAndReload { account: Owner, extracted: Map<Seq<char>, Seq<char>> },
    Read { account: Owner, keys: Map<Seq<char>, Seq<char>> },
    Empty,
}

/// What a [`ListEvent`] says.
pub enum ListAnswer {
    Session(Option<Session>),
    Stored(Map<Seq<char>, Seq<char>>),
    OnDisk(Seq<Seq<char>>),
    Process(Option<i64>),
    Extracted(Map<Seq<char>, Seq<char>>),
}

impl View for ListStage {
    type V = Step;

    open spec fn view(&self) -> Step {
        match *self {
            ListStage::Session => Step::Session,
            ListStage::StoredKeys { account } => Step::StoredKeys { account: account@ },
            ListStage::Disk { account, keys } => Step::Disk { account: account@, keys: keys@ },
            ListStage::FindProcess { account, keys } => Step::FindProcess {
                account: account@,
                keys: keys@,
            },
            ListStage::Extract { account, keys, pid } => Step::Extract {
                account: account@,
                keys: keys@,
                pid,
            },
            ListStage::SaveAndReload { account, extracted } => Step::SaveAndReload {
                account: account@,
                extracted: extracted@,
            },
            ListStage::Read { account, keys } => Step::Read { account: account@, keys: keys@ },
            ListStage::Empty => Step::Empty,
        }
    }
}

impl View for ListEvent {
    type V = ListAnswer;

    open spec fn view(&self) -> ListAnswer {
        match *self {
            ListEvent::Session(session) => ListAnswer::Session(session),
            ListEvent::Stored(keys) => ListAnswer::Stored(keys@),
            ListEvent::OnDisk(names) => ListAnswer::OnDisk(texts(names@)),
            ListEvent::Process(pid) => ListAnswer::Process(pid),
            ListEvent::Extracted(keys) => ListAnswer::Extracted(keys@),
        }
    }
}

/// The messages are read where there is a key of a message database; else the list is empty.
pub open spec fn readable(account: Owner, keys: Map<Seq<char>, Seq<char>>) -> Step {
    if has_message_key(keys) {
        Step::Read { account, keys }
    } else {
        Step::Empty
    }
}

/// What a request waits for after an answer. Keys are extracted where a message database on disk
/// has none and the chat client runs. An answer that the request does not wait for changes
/// nothing.
pub open spec fn listed(step: Step, a: ListAnswer) -> Step {
    match (step, a) {
        (Step::Session, ListAnswer::Session(session)) => match account_of(session) {
            Some(account) => Step::StoredKeys { account },
            None => Step::Empty,
        },
        (Step::StoredKeys { account }, ListAnswer::Stored(keys)) => Step::Disk { account, keys },
        (Step::Disk { account, keys }, ListAnswer::OnDisk(on_disk)) => if lacks_message_key(
            on_disk,
            keys,
        ) {
            Step::FindProcess { account, keys }
        } else {
            readable(account, keys)
        },
        (Step::FindProcess { account, keys }, ListAnswer::Process(pid)) => match pid {
            Some(pid) => Step::Extract { account, keys, pid },
            None => readable(account, keys),
        },
        (Step::Extract { account, keys, .. }, ListAnswer::Extracted(extracted)) => if extracted
            == Map::<Seq<char>, Seq<char>>::empty() {
            readable(account, keys)
        } else {
            Step::SaveAndReload { account, extracted }
        },
        (Step::SaveAndReload { account, .. }, ListAnswer::Stored(keys)) => readable(account, keys),
        _ => step,
    }
}

fn read_or_empty(account: Account, keys: KeyRing) -> (r: ListStage)
    ensures
        r@ == readable(account@, keys@),
{
    if keys.has_message_db() {
        ListStage::Read { account, keys }
    } else {
        ListStage::Empty
    }
}

/// Begins a request for a list of messages.
pub fn list_messages(chat_id: String, params: ListParams) -> (r: ListRequest)
    ensures
        r.chat_id@ == chat_id@,
        r.params == params,
        r.stage@ == Step::Session,
{
    ListRequest { chat_id, params, stage: ListStage::Session }
}

impl ListRequest {
    /// Takes in an answer.
    pub fn resume(self, event: ListEvent) -> (r: ListRequest)
        ensures
            r.chat_id@ == self.chat_id@,
            r.params == self.params,
            r.stage@ == listed(self.stage@, event@),
    {
        let ListRequest { chat_id, params, stage } = self;
        let stage = match (stage, event) {
            (ListStage::Session, ListEvent::Session(session)) => match session {
                Some(s) => match s.logged_in_user {
                    Some(user) => ListStage::StoredKeys {
                        account: Account { session_id: s.id, user },
                    },
                    None => ListStage::Empty,
                },
                None => ListStage::Empty,
            },
            (ListStage::StoredKeys { account }, ListEvent::Stored(keys)) => {
                ListStage::Disk { account, keys }
            },
            (ListStage::Disk { account, keys }, ListEvent::OnDisk(on_disk)) => {
                if message_key_missing(on_disk.as_slice(), &keys) {
                    ListStage::FindProcess { account, keys }
                } else {
                    read_or_empty(account, keys)
                }
            },
            (ListStage::FindProcess { account, keys }, ListEvent::Process(pid)) => match pid {
                Some(pid) => ListStage::Extract { account, keys, pid },
                None => read_or_empty(account, keys),
            },
            (ListStage::Extract { account, keys, .. }, ListEvent::Extracted(extracted)) => {
                if extracted.is_empty() {
                    read_or_empty(account, keys)
                } else {
                    ListStage::SaveAndReload { account, extracted }
                }
            },
            (ListStage::SaveAndReload { account, .. }, ListEvent::Stored(keys)) => {
                read_or_empty(account, keys)
            },
            (stage, _) => stage,
        };
        ListRequest { chat_id, params, stage }
    }
}

/// Keys are extracted only where a message database on disk had no key, and messages are read
/// only with a key of a message database.
pub proof fn law_list_extracts_and_reads_with_cause(step: Step, a: ListAnswer)
    ensures
        listed(step, a) is FindProcess && listed(step, a) != step ==> step is Disk && a is OnDisk
            && lacks_message_key(a->OnDisk_0, step->Disk_keys),
        listed(step, a) is Extract && listed(step, a) != step ==> step is FindProcess,
        listed(step, a) is Read && listed(step, a) != step ==> has_message_key(
            listed(step, a)->Read_keys,
        ),
        step is Read || step is Empty ==> listed(step, a) == step,
{
}

/// Without a session, or without a user who is logged in, the list is empty.
pub proof fn law_list_without_account_is_empty(session: Option<Session>)
    requires
        account_of(session) is None,
    ensures
        listed(Step::Session, ListAnswer::Session(session)) is Empty,
{
}

// ---------------------------------------------------------------------------
// Sending
// ---------------------------------------------------------------------------

/// An image to send, encoded in base64.
#[derive(Debug, Clone)]
pub struct ImageInput {
    pub data: String,
    pub mime_type: String,
}

/// A file to send, encoded in base64.
#[derive(Debug, Clone)]
pub struct FileInput {
    pub data: String,
    pub filename: String,
}

/// A request to send a message.
#[derive(Debug, Clone)]
pub struct SendParams {
    pub chat_id: String,
    pub text: Option<String>,
    pub image: Option<ImageInput>,
    pub file: Option<FileInput>,
}

/// How a request to send went.
#[derive(Debug, Clone)]
pub struct SendResult {
    pub success: bool,
    pub error: Option<String>,
}

/// The ending of an image file by the type of the image.
pub open spec fn image_ending(mime: Seq<char>) -> Seq<char> {
    if mime == "image/jpeg"@ {
        ".jpg"@
    } else if mime == "image/gif"@ {
        ".gif"@
    } else {
        ".png"@
    }
}

/// Where an image is put before it is sent.
pub open spec fn image_path(millis: nat, mime: Seq<char>) -> Seq<char> {
    "/tmp/send_image_"@ + decimal_text(millis) + image_ending(mime)
}

/// Whether a character may stand in the name of a file that is put aside.
pub open spec fn is_portable(c: char) -> bool {
    ||| 'a' <= c <= 'z'
    ||| 'A' <= c <= 'Z'
    ||| '0' <= c <= '9'
    ||| c == '.'
    ||| c == '-'
    ||| c == '_'
}

/// A name with an underscore in place of every character that is not portable.
pub open spec fn portable(name: Seq<char>) -> Seq<char> {
    name.map_values(
        |c: char|
            if is_portable(c) {
                c
            } else {
                '_'
            },
    )
}

/// Where a file is put before it is sent.
pub open spec fn file_path(millis: nat, name: Seq<char>) -> Seq<char> {
    "/tmp/send_file_"@ + decimal_text(millis) + "_"@ + portable(name)
}

fn safe_name(name: &str) -> (r: String)
    ensures
        r@ == portable(name@),
{
    let mut out = String::new();
    assert(out@ =~= portable(name@.subrange(0, 0)));
    for c in it: name.chars()
        invariant
            it.seq() == name@,
            out@ == portable(name@.subrange(0, it.index() as int)),
    {
        let ghost i = it.index() as int;
        assert(name@.subrange(0, i + 1) =~= name@.subrange(0, i).push(c));
        if ('a' <= c && c <= 'z') || ('A' <= c && c <= 'Z') || ('0' <= c && c <= '9') || c == '.'
            || c == '-' || c == '_' {
            out.push(c);
        } else {
            out.push('_');
        }
        assert(out@ =~= portable(name@.subrange(0, i + 1)));
    }
    assert(name@.subrange(0, name@.len() as int) =~= name@);
    out
}

fn temp_image_path(millis: u128, mime: &str) -> (r: String)
    ensures
        r@ == image_path(millis as nat, mime@),
{
    let mut out = "/tmp/send_image_".to_owned();
    let time = decimal(millis);
    out.append(time.as_str());
    if same_text(mime, "image/jpeg") {
        out.append(".jpg");
    } else if same_text(mime, "image/gif") {
        out.append(".gif");
    } else {
        out.append(".png");
    }
    out
}

fn temp_file_path(millis: u128, name: &str) -> (r: String)
    ensures
        r@ == file_path(millis as nat, name@),
{
    let mut out = "/tmp/send_file_".to_owned();
    let time = decimal(millis);
    out.append(time.as_str());
    out.append("_");
    let safe = safe_name(name);
    out.append(safe.as_str());
    out
}

/// What a request to send waits for.
#[derive(Debug)]
pub enum SendStage {
    /// The default session.
    Session { input: SendParams },
    /// The time, for the name of the image file.
    ImageTime { input: SendParams, session: Session },
    /// Writing the image file.
    WriteImage { input: SendParams, session: Session, path: String, bytes: Vec<u8> },
    /// The time, for the name of the file.
    FileTime { input: SendParams, session: Session, image: Option<String> },
    /// Writing the file.
    WriteFile {
        input: SendParams,
        session: Session,
        image: Option<String>,
        path: String,
        bytes: Vec<u8>,
    },
    /// Carrying out the plan in the session.
    Run { params: SendMessageParams, session: Session },
    /// Removing the files that were written.
    CleanUp { paths: Vec<String>, result: SendResult },
    /// Nothing: this is the reply.
    Done(SendResult),
}

/// What the outside world answers.
#[derive(Debug)]
pub enum SendEvent {
    Session(Option<Session>),
    /// The milliseconds since the start of the epoch.
    Millis(u128),
    Written(Result<(), String>),
    Ran { success: bool, error: Option<String> },
    CleanedUp,
}

/// What [`SendParams`] say.
pub struct Outgoing {
    pub chat_id: Seq<char>,
    pub text: Option<Seq<char>>,
    pub image: Option<Encoded>,
    pub file: Option<Encoded>,
}

/// Encoded data, and the type of the image or the name of the file.
pub struct Encoded {
    pub data: Seq<char>,
    pub label: Seq<char>,
}

/// What a [`SendResult`] says.
pub struct Outcome {
    pub success: bool,
    pub error: Option<Seq<char>>,
}

/// What a [`SendStage`] is.
pub enum Sending {
    Session { input: Outgoing },
    ImageTime { input: Outgoing, session: Session },
    WriteImage { input: Outgoing, session: Session, path: Seq<char>, bytes: Seq<u8> },
    FileTime { input: Outgoing, session: Session, image: Option<Seq<char>> },
    WriteFile {
        input: Outgoing,
        session: Session,
        image: Option<Seq<char>>,
        path: Seq<char>,
        bytes: Seq<u8>,
    },
    Run { params: Orders, session: Session },
    CleanUp { paths: Seq<Seq<char>>, result: Outcome },
    Done(Outcome),
}

/// What a [`SendEvent`] says.
pub enum SendAnswer {
    Session(Option<Session>),
    Millis(nat),
    Written(Result<(), Seq<char>>),
    Ran { success: bool, error: Option<Seq<char>> },
    CleanedUp,
}

impl View for SendParams {
    type V = Outgoing;

    open spec fn view(&self) -> Outgoing {
        Outgoing {
            chat_id: self.chat_id@,
            text: opt_text(self.text),
            image: match self.image {
                Some(i) => Some(Encoded { data: i.data@, label: i.mime_type@ }),
                None => None,
            },
            file: match self.file {
                Some(f) => Some(Encoded { data: f.data@, label: f.filename@ }),
                None => None,
            },
        }
    }
}

impl View for SendResult {
    type V = Outcome;

    open spec fn view(&self) -> Outcome {
        Outcome { success: self.success, error: opt_text(self.error) }
    }
}

impl View for SendStage {
    type V = Sending;

    open spec fn view(&self) -> Sending {
        match *self {
            SendStage::Session { input } => Sending::Session { input: input@ },
            SendStage::ImageTime { input, session } => Sending::ImageTime {
                input: input@,
                session,
            },
            SendStage::WriteImage { input, session, path, bytes } => Sending::WriteImage {
                input: input@,
                session,
                path: path@,
                bytes: bytes@,
            },
            SendStage::FileTime { input, session, image } => Sending::FileTime {
                input: input@,
                session,
                image: opt_text(image),
            },
            SendStage::WriteFile { input, session, image, path, bytes } => Sending::WriteFile {
                input: input@,
                session,
                image: opt_text(image),
                path: path@,
                bytes: bytes@,
            },
            SendStage::Run { params, session } => Sending::Run { params: params@, session },
            SendStage::CleanUp { paths, result } => Sending::CleanUp {
                paths: texts(paths@),
                result: result@,
            },
            SendStage::Done(result) => Sending::Done(result@),
        }
    }
}

impl View for SendEvent {
    type V = SendAnswer;

    open spec fn view(&self) -> SendAnswer {
        match *self {
            SendEvent::Session(session) => SendAnswer::Session(session),
            SendEvent::Millis(millis) => SendAnswer::Millis(millis as nat),
            SendEvent::Written(r) => SendAnswer::Written(
                match r {
                    Ok(u) => Ok(u),
                    Err(e) => Err(e@),
                },
            ),
            SendEvent::Ran { success, error } => SendAnswer::Ran {
                success,
                error: opt_text(error),
            },
            SendEvent::CleanedUp => SendAnswer::CleanedUp,
        }
    }
}

/// A request that was refused.
pub open spec fn refused(reason: Seq<char>) -> Sending {
    Sending::Done(Outcome { success: false, error: Some(reason) })
}

/// A request at its beginning: it must have something to send.
pub open spec fn submitted(input: Outgoing) -> Sending {
    if input.text is None && input.image is None && input.file is None {
        refused("No text, image, or file provided"@)
    } else {
        Sending::Session { input }
    }
}

/// What the plan is given. The type of the image goes along with an image that was written.
pub open spec fn orders(
    input: Outgoing,
    image: Option<Seq<char>>,
    file: Option<Seq<char>>,
) -> Orders {
    Orders {
        chat_id: input.chat_id,
        message: input.text,
        image_path: image,
        image_mime: if image is Some && input.image is Some {
            Some(input.image->Some_0.label)
        } else {
            None
        },
        file_path: file,
    }
}

/// After the image: the file is next, if there is one.
pub open spec fn after_image(
    input: Outgoing,
    session: Session,
    image: Option<Seq<char>>,
) -> Sending {
    if input.file is Some {
        Sending::FileTime { input, session, image }
    } else {
        Sending::Run { params: orders(input, image, None), session }
    }
}

/// After the session is known: it must be there and logged in. The image is next, if there is one.
pub open spec fn admitted(input: Outgoing, session: Option<Session>) -> Sending {
    match session {
        None => refused("No session available"@),
        Some(s) => if s.logged_in_user is None {
            refused("NOT_LOGGED_IN"@)
        } else if input.image is Some {
            Sending::ImageTime { input, session: s }
        } else {
            after_image(input, s, None)
        },
    }
}

/// After the image was decoded. An image that cannot be decoded is left out.
pub open spec fn image_ready(
    input: Outgoing,
    session: Session,
    millis: nat,
    decoded: Result<Seq<u8>, Seq<char>>,
) -> Sending {
    match decoded {
        Ok(bytes) => Sending::WriteImage {
            input,
            session,
            path: image_path(millis, input.image->Some_0.label),
            bytes,
        },
        Err(_) => after_image(input, session, None),
    }
}

/// After the file was decoded. A file that cannot be decoded ends the request.
pub open spec fn file_ready(
    input: Outgoing,
    session: Session,
    image: Option<Seq<char>>,
    millis: nat,
    decoded: Result<Seq<u8>, Seq<char>>,
) -> Sending {
    match decoded {
        Ok(bytes) => Sending::WriteFile {
            input,
            session,
            image,
            path: file_path(millis, input.file->Some_0.label),
            bytes,
        },
        Err(e) => refused("Failed to decode base64 file data: "@ + e),
    }
}

/// The files that the plan was given.
pub open spec fn given_paths(params: Orders) -> Seq<Seq<char>> {
    (match params.image_path {
        Some(p) => seq![p],
        None => Seq::empty(),
    }) + (match params.file_path {
        Some(p) => seq![p],
        None => Seq::empty(),
    })
}

/// What a request waits for after an answer. An answer that it does not wait for changes nothing.
pub open spec fn proceeded(s: Sending, a: SendAnswer) -> Sending {
    match (s, a) {
        (Sending::Session { input }, SendAnswer::Session(session)) => admitted(input, session),
        (Sending::ImageTime { input, session }, SendAnswer::Millis(millis)) => if input.image is Some {
            image_ready(input, session, millis, base64_decoded(input.image->Some_0.data))
        } else {
            after_image(input, session, None)
        },
        (Sending::WriteImage { input, session, path, .. }, SendAnswer::Written(r)) => after_image(
            input,
            session,
            if r is Ok {
                Some(path)
            } else {
                None
            },
        ),
        (Sending::FileTime { input, session, image }, SendAnswer::Millis(millis)) => if input.file is Some {
            file_ready(input, session, image, millis, base64_decoded(input.file->Some_0.data))
        } else {
            Sending::Run { params: orders(input, image, None), session }
        },
        (Sending::WriteFile { input, session, image, path, .. }, SendAnswer::Written(r)) => match r {
            Ok(_) => Sending::Run { params: orders(input, image, Some(path)), session },
            Err(e) => refused("Failed to write temp file: "@ + e),
        },
        (Sending::Run { params, .. }, SendAnswer::Ran { success, error }) => Sending::CleanUp {
            paths: given_paths(params),
            result: Outcome { success, error },
        },
        (Sending::CleanUp { result, .. }, SendAnswer::CleanedUp) => Sending::Done(result),
        _ => s,
    }
}

fn refuse(reason: &str) -> (r: SendStage)
    ensures
        r@ == refused(reason@),
{
    SendStage::Done(SendResult { success: false, error: Some(reason.to_owned()) })
}

fn refuse_with(head: &str, detail: &str) -> (r: SendStage)
    ensures
        r@ == refused(head@ + detail@),
{
    let mut reason = head.to_owned();
    reason.append(detail);
    SendStage::Done(SendResult { success: false, error: Some(reason) })
}

fn run_plan(
    input: SendParams,
    session: Session,
    image: Option<String>,
    file: Option<String>,
) -> (r: SendStage)
    ensures
        r@ == (Sending::Run {
            params: orders(input@, opt_text(image), opt_text(file)),
            session,
        }),
{
    let image_mime = match (&image, input.image) {
        (Some(_), Some(i)) => Some(i.mime_type),
        _ => None,
    };
    SendStage::Run {
        params: SendMessageParams {
            chat_id: input.chat_id,
            message: input.text,
            image_path: image,
            image_mime,
            file_path: file,
        },
        session,
    }
}

fn next_after_image(input: SendParams, session: Session, image: Option<String>) -> (r: SendStage)
    ensures
        r@ == after_image(input@, session, opt_text(image)),
{
    if input.file.is_some() {
        SendStage::FileTime { input, session, image }
    } else {
        run_plan(input, session, image, None)
    }
}

/// Goes on after the image was decoded.
pub fn image_decoded(
    input: SendParams,
    session: Session,
    millis: u128,
    decoded: Result<Vec<u8>, String>,
) -> (r: SendStage)
    requires
        input.image is Some,
    ensures
        r@ == image_ready(input@, session, millis as nat, decoding(decoded)),
{
    match decoded {
        Ok(bytes) => {
            let path = match &input.image {
                Some(i) => temp_image_path(millis, i.mime_type.as_str()),
                None => String::new(),
            };
            SendStage::WriteImage { input, session, path, bytes }
        },
        Err(_) => next_after_image(input, session, None),
    }
}

/// Goes on after the file was decoded.
pub fn file_decoded(
    input: SendParams,
    session: Session,
    image: Option<String>,
    millis: u128,
    decoded: Result<Vec<u8>, String>,
) -> (r: SendStage)
    requires
        input.file is Some,
    ensures
        r@ == file_ready(input@, session, opt_text(image), millis as nat, decoding(decoded)),
{
    match decoded {
        Ok(bytes) => {
            let path = match &input.file {
                Some(f) => temp_file_path(millis, f.filename.as_str()),
                None => String::new(),
            };
            SendStage::WriteFile { input, session, image, path, bytes }
        },
        Err(e) => refuse_with("Failed to decode base64 file data: ", e.as_str()),
    }
}

/// Begins a request to send a message.
pub fn send_message(input: SendParams) -> (r: SendStage)
    ensures
        r@ == submitted(input@),
{
    if input.text.is_none() && input.image.is_none() && input.file.is_none() {
        return refuse("No text, image, or file provided");
    }
    SendStage::Session { input }
}

impl SendStage {
    /// Takes in an answer.
    pub fn resume(self, event: SendEvent) -> (r: SendStage)
        ensures
            r@ == proceeded(self@, event@),
    {
        match (self, event) {
            (SendStage::Session { input }, SendEvent::Session(session)) => match session {
                None => refuse("No session available"),
                Some(session) => if session.logged_in_user.is_none() {
                    refuse("NOT_LOGGED_IN")
                } else if input.image.is_some() {
                    SendStage::ImageTime { input, session }
                } else {
                    next_after_image(input, session, None)
                },
            },
            (SendStage::ImageTime { input, session }, SendEvent::Millis(millis)) => {
                let decoded = match &input.image {
                    Some(i) => base64_decode(i.data.as_str()),
                    None => {
                        return next_after_image(input, session, None);
                    },
                };
                image_decoded(input, session, millis, decoded)
            },
            (SendStage::WriteImage { input, session, path, .. }, SendEvent::Written(r)) => {
                let image = match r {
                    Ok(_) => Some(path),
                    Err(_) => None,
                };
                next_after_image(input, session, image)
            },
            (SendStage::FileTime { input, session, image }, SendEvent::Millis(millis)) => {
                let decoded = match &input.file {
                    Some(f) => base64_decode(f.data.as_str()),
                    None => {
                        return run_plan(input, session, image, None);
                    },
                };
                file_decoded(input, session, image, millis, decoded)
            },
            (SendStage::WriteFile { input, session, image, path, .. }, SendEvent::Written(r)) => {
                match r {
                    Ok(_) => run_plan(input, session, image, Some(path)),
                    Err(e) => refuse_with("Failed to write temp file: ", e.as_str()),
                }
            },
            (SendStage::Run { params, .. }, SendEvent::Ran { success, error }) => {
                let ghost given = given_paths(params@);
                let mut paths: Vec<String> = Vec::new();
                if let Some(p) = params.image_path {
                    paths.push(p);
                }
                if let Some(p) = params.file_path {
                    paths.push(p);
                }
                assert(texts(paths@) =~= given);
                SendStage::CleanUp { paths, result: SendResult { success, error } }
            },
            (SendStage::CleanUp { result, .. }, SendEvent::CleanedUp) => SendStage::Done(result),
            (stage, _) => stage,
        }
    }
}

/// How far a request has got.
pub open spec fn send_progress(s: Sending) -> int {
    match s {
        Sending::Session { .. } => 0,
        Sending::ImageTime { .. } => 1,
        Sending::WriteImage { .. } => 2,
        Sending::FileTime { .. } => 3,
        Sending::WriteFile { .. } => 4,
        Sending::Run { .. } => 5,
        Sending::CleanUp { .. } => 6,
        Sending::Done(_) => 7,
    }
}

/// A request never goes back, so its plan is carried out at most once; a reply is final.
pub proof fn law_send_request_advances(s: Sending, a: SendAnswer)
    ensures
        proceeded(s, a) == s || send_progress(s) < send_progress(proceeded(s, a)),
        s is Done ==> proceeded(s, a) == s,
{
}

/// Without a session, or without a user who is logged in, the request is refused.
pub proof fn law_send_needs_login(input: Outgoing, session: Option<Session>)
    requires
        account_of(session) is None,
    ensures
        admitted(input, session) == refused(
            if session is None {
                "No session available"@
            } else {
                "NOT_LOGGED_IN"@
            },
        ),
{
}

/// Whether the session that a request has got is logged in.
pub open spec fn is_logged_in(s: Sending) -> bool {
    match s {
        Sending::ImageTime { session, .. } => session.logged_in_user is Some,
        Sending::WriteImage { session, .. } => session.logged_in_user is Some,
        Sending::FileTime { session, .. } => session.logged_in_user is Some,
        Sending::WriteFile { session, .. } => session.logged_in_user is Some,
        Sending::Run { session, .. } => session.logged_in_user is Some,
        _ => true,
    }
}

/// From its beginning on, a request works only in a session that is logged in.
pub proof fn law_send_stays_logged_in(input: Outgoing, s: Sending, a: SendAnswer)
    ensures
        is_logged_in(submitted(input)),
        is_logged_in(s) ==> is_logged_in(proceeded(s, a)),
{
}

/// An image that cannot be decoded or written is left out, and never ends the request.
pub proof fn law_image_failure_is_tolerated(s: Sending, a: SendAnswer)
    requires
        s is ImageTime || s is WriteImage,
    ensures
        !(proceeded(s, a) is Done),
        proceeded(s, a) is Run ==> (proceeded(s, a)->Run_params.image_path is Some <==> s
            is WriteImage && a is Written && a->Written_0 is Ok),
{
}

/// The plan is given a file only after it was written, and the type of the image only together
/// with the image.
pub proof fn law_plan_gets_written_files(s: Sending, a: SendAnswer)
    requires
        !(s is Run),
        proceeded(s, a) is Run,
    ensures
        ({
            let params = proceeded(s, a)->Run_params;
            &&& params.file_path is Some ==> s is WriteFile && a is Written && a->Written_0 is Ok
                && params.file_path == Some(s->WriteFile_path)
            &&& params.image_mime is Some ==> params.image_path is Some
        }),
{
}

/// Once the plan was carried out, the files that it was given are removed, and no others; then the
/// reply is what the plan came to.
pub proof fn law_given_files_are_removed(
    params: Orders,
    session: Session,
    success: bool,
    error: Option<Seq<char>>,
    path: Seq<char>,
)
    ensures
        ({
            let cleaning = proceeded(
                Sending::Run { params, session },
                SendAnswer::Ran { success, error },
            );
            &&& cleaning is CleanUp
            &&& cleaning->CleanUp_paths.contains(path) <==> params.image_path == Some(path)
                || params.file_path == Some(path)
            &&& proceeded(cleaning, SendAnswer::CleanedUp) == Sending::Done(
                Outcome { success, error },
            )
        }),
{
    let paths = given_paths(params);
    if params.image_path == Some(path) {
        assert(paths[0] == path);
    }
    if params.file_path == Some(path) {
        assert(paths.last() == path);
    }
    if paths.contains(path) {
        let i = choose|i: int| 0 <= i < paths.len() && paths[i] == path;
        assert(paths[i] == path);
    }
}

/// A portable name has as many characters as the name it was made from, and only portable ones,
/// so no separator of a path. What was portable is kept, the dot of an ending too.
pub proof fn law_portable_names(name: Seq<char>)
    ensures
        portable(name).len() == name.len(),
        forall|i: int| 0 <= i < name.len() ==> is_portable(#[trigger] portable(name)[i]),
        forall|i: int|
            0 <= i < name.len() && is_portable(name[i]) ==> #[trigger] portable(name)[i] == name[i],
        !portable(name).contains('/'),
        portable(portable(name)) == portable(name),
{
    assert(portable(portable(name)) =~= portable(name));
}

// ---------------------------------------------------------------------------
// Laws: what each step is for
// ---------------------------------------------------------------------------

/// Nothing of a stage or an answer of a listing is lost in what it is taken for.
pub proof fn law_listings_say_all(s: ListStage, e: ListEvent)
    ensures
        s is Session <==> s@ is Session,
        s is StoredKeys ==> s@ == (Step::StoredKeys { account: s->StoredKeys_account@ }),
        s is Disk ==> s@ == (Step::Disk { account: s->Disk_account@, keys: s->Disk_keys@ }),
        s is FindProcess ==> s@ == (Step::FindProcess {
            account: s->FindProcess_account@,
            keys: s->FindProcess_keys@,
        }),
        s is Extract ==> s@ == (Step::Extract {
            account: s->Extract_account@,
            keys: s->Extract_keys@,
            pid: s->pid,
        }),
        s is SaveAndReload ==> s@ == (Step::SaveAndReload {
            account: s->SaveAndReload_account@,
            extracted: s->extracted@,
        }),
        s is Read ==> s@ == (Step::Read { account: s->Read_account@, keys: s->Read_keys@ }),
        s is Empty <==> s@ is Empty,
        e is Session ==> e@ == ListAnswer::Session(e->Session_0),
        e is Stored ==> e@ == ListAnswer::Stored(e->Stored_0@),
        e is OnDisk ==> e@ == ListAnswer::OnDisk(texts(e->OnDisk_0@)),
        e is Process ==> e@ == ListAnswer::Process(e->Process_0),
        e is Extracted ==> e@ == ListAnswer::Extracted(e->Extracted_0@),
{
}

/// Whether a listing reads the messages of an account with the given keys, or is empty where none of
/// them is that of a database that holds messages.
pub open spec fn reads_with(
    step: Step,
    account: Owner,
    keys: Map<Seq<char>, Seq<char>>,
) -> bool {
    &&& (exists|name: Seq<char>| #[trigger] keys.dom().contains(name) && is_message_db(name))
        ==> step == (Step::Read { account, keys })
    &&& (forall|name: Seq<char>| #[trigger] keys.dom().contains(name) ==> !is_message_db(name))
        ==> step is Empty
}

/// A listing learns whose messages to read from the session that is logged in, then reads the stored
/// keys of that account and looks at what is on disk. Where every message database has its key the
/// messages are read with the stored keys; else the process of the client is looked for, and its
/// keys are extracted. What was extracted is stored as it is, and the messages are read with what is
/// stored then. Without a process, and where nothing was extracted, they are read with the keys that
/// were there.
pub proof fn law_listing_goes_on(step: Step, a: ListAnswer)
    ensures
        step is Session && a is Session ==> {
            &&& account_of(a->Session_0) is Some ==> listed(step, a) == (Step::StoredKeys {
                account: account_of(a->Session_0)->Some_0,
            })
            &&& account_of(a->Session_0) is None ==> listed(step, a) is Empty
        },
        step is StoredKeys && a is Stored ==> listed(step, a) == (Step::Disk {
            account: step->StoredKeys_account,
            keys: a->Stored_0,
        }),
        step is Disk && a is OnDisk ==> {
            let (on_disk, keys) = (a->OnDisk_0, step->Disk_keys);
            &&& (exists|i: int|
                0 <= i < on_disk.len() && is_message_db(#[trigger] on_disk[i])
                    && !keys.dom().contains(on_disk[i])) ==> listed(step, a) == (
            Step::FindProcess { account: step->Disk_account, keys })
            &&& (forall|i: int|
                0 <= i < on_disk.len() && is_message_db(#[trigger] on_disk[i])
                    ==> keys.dom().contains(on_disk[i])) ==> reads_with(
                listed(step, a),
                step->Disk_account,
                keys,
            )
        },
        step is FindProcess && a is Process ==> {
            &&& a->Process_0 is Some ==> listed(step, a) == (Step::Extract {
                account: step->FindProcess_account,
                keys: step->FindProcess_keys,
                pid: a->Process_0->Some_0,
            })
            &&& a->Process_0 is None ==> reads_with(
                listed(step, a),
                step->FindProcess_account,
                step->FindProcess_keys,
            )
        },
        step is Extract && a is Extracted ==> {
            &&& (exists|name: Seq<char>| #[trigger] a->Extracted_0.dom().contains(name)) ==> listed(
                step,
                a,
            ) == (Step::SaveAndReload {
                account: step->Extract_account,
                extracted: a->Extracted_0,
            })
            &&& (forall|name: Seq<char>| !#[trigger] a->Extracted_0.dom().contains(name))
                ==> reads_with(listed(step, a), step->Extract_account, step->Extract_keys)
        },
        step is SaveAndReload && a is Stored ==> reads_with(
            listed(step, a),
            step->SaveAndReload_account,
            a->Stored_0,
        ),
{
    if a is Extracted && forall|name: Seq<char>| !#[trigger] a->Extracted_0.dom().contains(name) {
        assert(a->Extracted_0 =~= Map::<Seq<char>, Seq<char>>::empty());
    }
}

/// Nothing of a request to send, a stage or an answer is lost in what it is taken for.
pub proof fn law_sendings_say_all(p: SendParams, r: SendResult, s: SendStage, e: SendEvent)
    ensures
        p@.chat_id == p.chat_id@,
        p@.text is Some <==> p.text is Some,
        p.text is Some ==> p@.text == Some(p.text->Some_0@),
        p@.image is Some <==> p.image is Some,
        p.image is Some ==> p@.image->Some_0.data == p.image->Some_0.data@
            && p@.image->Some_0.label == p.image->Some_0.mime_type@,
        p@.file is Some <==> p.file is Some,
        p.file is Some ==> p@.file->Some_0.data == p.file->Some_0.data@ && p@.file->Some_0.label
            == p.file->Some_0.filename@,
        r@.success == r.success,
        r@.error is Some <==> r.error is Some,
        r.error is Some ==> r@.error == Some(r.error->Some_0@),
        s is Session ==> s@ == (Sending::Session { input: s->Session_input@ }),
        s is ImageTime ==> s@ == (Sending::ImageTime {
            input: s->ImageTime_input@,
            session: s->ImageTime_session,
        }),
        s is WriteImage ==> s@ == (Sending::WriteImage {
            input: s->WriteImage_input@,
            session: s->WriteImage_session,
            path: s->WriteImage_path@,
            bytes: s->WriteImage_bytes@,
        }),
        s is FileTime ==> s@ == (Sending::FileTime {
            input: s->FileTime_input@,
            session: s->FileTime_session,
            image: opt_text(s->FileTime_image),
        }),
        s is WriteFile ==> s@ == (Sending::WriteFile {
            input: s->WriteFile_input@,
            session: s->WriteFile_session,
            image: opt_text(s->WriteFile_image),
            path: s->WriteFile_path@,
            bytes: s->WriteFile_bytes@,
        }),
        s is Run ==> s@ == (Sending::Run { params: s->params@, session: s->Run_session }),
        s is CleanUp ==> s@ == (Sending::CleanUp { paths: texts(s->paths@), result: s->result@ }),
        s is Done ==> s@ == Sending::Done(s->Done_0@),
        e is Session ==> e@ == SendAnswer::Session(e->Session_0),
        e is Millis ==> e@ == SendAnswer::Millis(e->Millis_0 as nat),
        e is Written ==> e@ is Written && (e->Written_0 is Ok <==> e@->Written_0 is Ok),
        e is Written && e->Written_0 is Err ==> e@->Written_0->Err_0 == e->Written_0->Err_0@,
        e is Ran ==> e@ == (SendAnswer::Ran { success: e->success, error: opt_text(e->error) }),
        e is CleanedUp ==> e@ is CleanedUp,
{
}

/// Whether a request has failed for a reason.
pub open spec fn fails_with(s: Sending, reason: Seq<char>) -> bool {
    s is Done && !s->Done_0.success && s->Done_0.error == Some(reason)
}

/// A request with a text, an image or a file to send is taken up as it is; one with nothing to send
/// is refused.
pub proof fn law_something_to_send(input: Outgoing)
    ensures
        input.text is Some || input.image is Some || input.file is Some ==> submitted(input) == (
        Sending::Session { input }),
        input.text is None && input.image is None && input.file is None ==> fails_with(
            submitted(input),
            "No text, image, or file provided"@,
        ),
{
}

/// A request that has got its session goes on in it: the time is taken where there is an image or,
/// without one, a file to put aside, and a text alone goes to the plan at once.
pub proof fn law_session_is_used(input: Outgoing, session: Option<Session>)
    ensures
        ({
            let next = proceeded(Sending::Session { input }, SendAnswer::Session(session));
            let fit = session is Some && session->Some_0.logged_in_user is Some;
            let s = session->Some_0;
            &&& session is None ==> fails_with(next, "No session available"@)
            &&& session is Some && s.logged_in_user is None ==> fails_with(
                next,
                "NOT_LOGGED_IN"@,
            )
            &&& fit && input.image is Some ==> next == (Sending::ImageTime { input, session: s })
            &&& fit && input.image is None && input.file is Some ==> next == (Sending::FileTime {
                input,
                session: s,
                image: None,
            })
            &&& fit && input.image is None && input.file is None ==> runs_with(
                next,
                s,
                input,
                None,
                None,
            )
        }),
{
}

/// Whether the plan is carried out in a session, for the chat and with the text of a request, and
/// with the files that were put aside. The type of the image goes along with it.
pub open spec fn runs_with(
    s: Sending,
    session: Session,
    input: Outgoing,
    image: Option<Seq<char>>,
    file: Option<Seq<char>>,
) -> bool {
    &&& s is Run
    &&& s->Run_session == session
    &&& s->Run_params.chat_id == input.chat_id
    &&& s->Run_params.message == input.text
    &&& s->Run_params.image_path == image
    &&& s->Run_params.file_path == file
    &&& image is None || input.image is None ==> s->Run_params.image_mime is None
    &&& image is Some && input.image is Some ==> s->Run_params.image_mime == Some(
        input.image->Some_0.label,
    )
}

/// An image is decoded, and its bytes are written to a path of its own, made of the time and of the
/// ending for its type. An image that cannot be decoded is left out.
pub proof fn law_image_is_put_aside(
    input: Outgoing,
    session: Session,
    millis: nat,
    decoded: Result<Seq<u8>, Seq<char>>,
)
    requires
        input.image is Some,
    ensures
        proceeded(Sending::ImageTime { input, session }, SendAnswer::Millis(millis))
            == image_ready(input, session, millis, base64_decoded(input.image->Some_0.data)),
        decoded is Ok ==> {
            let next = image_ready(input, session, millis, decoded);
            let kind = input.image->Some_0.label;
            let ending = if kind == "image/jpeg"@ {
                ".jpg"@
            } else if kind == "image/gif"@ {
                ".gif"@
            } else {
                ".png"@
            };
            &&& next is WriteImage
            &&& next->WriteImage_input == input
            &&& next->WriteImage_session == session
            &&& next->WriteImage_bytes == decoded->Ok_0
            &&& next->WriteImage_path == "/tmp/send_image_"@ + decimal_text(millis) + ending
        },
        decoded is Err && input.file is Some ==> image_ready(input, session, millis, decoded) == (
        Sending::FileTime { input, session, image: None }),
        decoded is Err && input.file is None ==> runs_with(
            image_ready(input, session, millis, decoded),
            session,
            input,
            None,
            None,
        ),
{
}

/// An image that was written goes along under the very path that it was written to; one that could
/// not be written is left out. A file, where there is one, is next.
pub proof fn law_written_image_goes_along(
    input: Outgoing,
    session: Session,
    path: Seq<char>,
    bytes: Seq<u8>,
    e: Seq<char>,
)
    ensures
        ({
            let s = Sending::WriteImage { input, session, path, bytes };
            let written = proceeded(s, SendAnswer::Written(Ok(())));
            let failed = proceeded(s, SendAnswer::Written(Err(e)));
            &&& input.file is Some ==> written == (Sending::FileTime {
                input,
                session,
                image: Some(path),
            })
            &&& input.file is None ==> runs_with(written, session, input, Some(path), None)
            &&& input.file is Some ==> failed == (Sending::FileTime {
                input,
                session,
                image: None,
            })
            &&& input.file is None ==> runs_with(failed, session, input, None, None)
        }),
{
}

/// A file is decoded, and its bytes are written to a path of its own, made of the time and of its
/// name. A file that cannot be decoded ends the request.
pub proof fn law_file_is_put_aside(
    input: Outgoing,
    session: Session,
    image: Option<Seq<char>>,
    millis: nat,
    decoded: Result<Seq<u8>, Seq<char>>,
)
    requires
        input.file is Some,
    ensures
        proceeded(Sending::FileTime { input, session, image }, SendAnswer::Millis(millis))
            == file_ready(input, session, image, millis, base64_decoded(input.file->Some_0.data)),
        decoded is Ok ==> {
            let next = file_ready(input, session, image, millis, decoded);
            &&& next is WriteFile
            &&& next->WriteFile_input == input
            &&& next->WriteFile_session == session
            &&& next->WriteFile_image == image
            &&& next->WriteFile_bytes == decoded->Ok_0
            &&& next->WriteFile_path == "/tmp/send_file_"@ + decimal_text(millis) + "_"@ + portable(
                input.file->Some_0.label,
            )
        },
        decoded is Err ==> fails_with(
            file_ready(input, session, image, millis, decoded),
            "Failed to decode base64 file data: "@ + decoded->Err_0,
        ),
{
}

/// A file that was written goes to the plan under the very path that it was written to, with or
/// without an image; one that could not be written ends the request.
pub proof fn law_written_file_goes_to_the_plan(
    input: Outgoing,
    session: Session,
    image: Option<Seq<char>>,
    path: Seq<char>,
    bytes: Seq<u8>,
    e: Seq<char>,
)
    ensures
        ({
            let s = Sending::WriteFile { input, session, image, path, bytes };
            let written = proceeded(s, SendAnswer::Written(Ok(())));
            &&& runs_with(written, session, input, image, Some(path))
            &&& written->Run_params.file_path == Some(path)
            &&& fails_with(
                proceeded(s, SendAnswer::Written(Err(e))),
                "Failed to write temp file: "@ + e,
            )
        }),
{
}

/// A request is answered with what its plan came to, success or failure, and with the plan's own
/// words.
pub proof fn law_reply_is_what_the_plan_came_to(
    params: Orders,
    session: Session,
    success: bool,
    error: Option<Seq<char>>,
)
    ensures
        ({
            let cleaning = proceeded(
                Sending::Run { params, session },
                SendAnswer::Ran { success, error },
            );
            let done = proceeded(cleaning, SendAnswer::CleanedUp);
            &&& cleaning is CleanUp
            &&& cleaning->CleanUp_result.success == success
            &&& cleaning->CleanUp_result.error == error
            &&& done is Done
            &&& done->Done_0.success == success
            &&& done->Done_0.error == error
        }),
{
}

/// An answer that a request does not wait for changes nothing.
pub proof fn law_unasked_answers_change_nothing(s: Sending, a: SendAnswer)
    requires
        !(s is Session && a is Session),
        !((s is ImageTime || s is FileTime) && a is Millis),
        !((s is WriteImage || s is WriteFile) && a is Written),
        !(s is Run && a is Ran),
        !(s is CleanUp && a is CleanedUp),
    ensures
        proceeded(s, a) == s,
{
}

/// The characters that are kept in the name of a file are the letters and digits of ASCII, the dot,
/// the hyphen and the underscore; every other becomes an underscore, at its place.
pub proof fn law_portable_characters(name: Seq<char>, i: int)
    requires
        0 <= i < name.len(),
    ensures
        portable(name).len() == name.len(),
        ({
            let c = name[i];
            let kept = ('a' <= c <= 'z') || ('A' <= c <= 'Z') || ('0' <= c <= '9') || c == '.' || c
                == '-' || c == '_';
            portable(name)[i] == if kept {
                c
            } else {
                '_'
            }
        }),
{
}

/// An answer that a listing does not wait for changes nothing.
pub proof fn law_unasked_listings_change_nothing(step: Step, a: ListAnswer)
    requires
        !(step is Session && a is Session),
        !(step is StoredKeys && a is Stored),
        !(step is Disk && a is OnDisk),
        !(step is FindProcess && a is Process),
        !(step is Extract && a is Extracted),
        !(step is SaveAndReload && a is Stored),
    ensures
        listed(step, a) == step,
{
}

/// A request without an image, or without a file, that was asked for the time nevertheless goes on
/// without one.
pub proof fn law_nothing_to_put_aside(
    input: Outgoing,
    session: Session,
    image: Option<Seq<char>>,
    millis: nat,
)
    ensures
        input.image is None && input.file is Some ==> proceeded(
            Sending::ImageTime { input, session },
            SendAnswer::Millis(millis),
        ) == (Sending::FileTime { input, session, image: None }),
        input.image is None && input.file is None ==> runs_with(
            proceeded(Sending::ImageTime { input, session }, SendAnswer::Millis(millis)),
            session,
            input,
            None,
            None,
        ),
        input.file is None ==> runs_with(
            proceeded(Sending::FileTime { input, session, image }, SendAnswer::Millis(millis)),
            session,
            input,
            image,
            None,
        ),
{
}

/// The files that are removed are those that the plan was given, each once, the image first.
pub proof fn law_files_to_remove(params: Orders)
    ensures
        params.image_path is Some && params.file_path is Some ==> given_paths(params) == seq![
            params.image_path->Some_0,
            params.file_path->Some_0,
        ],
        params.image_path is Some && params.file_path is None ==> given_paths(params) == seq![
            params.image_path->Some_0,
        ],
        params.image_path is None && params.file_path is Some ==> given_paths(params) == seq![
            params.file_path->Some_0,
        ],
        params.image_path is None && params.file_path is None ==> given_paths(params).len() == 0,
{
}

} // verus!

//! The data model of the core: users, chats, participants, messages and
//! attachment records, together with the ghost views that the contracts
//! speak of. A view replaces every `String` by its `Seq<char>` and every
//! `Vec` by its `Seq`, so that two values with equal views carry the same
//! information.

use vstd::prelude::*;

verus! {

pub type UserId = i64;
pub type ChatId = i64;
pub type MessageId = i64;
pub type FileId = i64;

/// What kind of conversation a chat is. A `Direct` chat has exactly two
/// distinct participants and at most one canonical instance per pair.
#[derive(Clone, Copy, PartialEq, Eq, Structural, Debug)]
pub enum ChatType {
    Direct,
    Group,
    Server,
}

/// The kind tag of an attachment.
#[derive(Clone, Copy, PartialEq, Eq, Structural, Debug)]
pub enum FileType {
    Picture,
    Video,
    Audio,
    File,
}

/// Whether resolving a direct chat found an existing record or created
/// a new one.
#[derive(Clone, Copy, PartialEq, Eq, Structural, Debug)]
pub enum ChatStatus {
    Exists,
    Created,
}

/// An identity with a unique username.
pub struct User {
    pub id: UserId,
    pub username: String,
    pub image_id: Option<FileId>,
}

#[verifier::ext_equal]
pub ghost struct UserView {
    pub id: UserId,
    pub username: Seq<char>,
    pub image_id: Option<FileId>,
}

impl View for User {
    type V = UserView;

    open spec fn view(&self) -> UserView {
        UserView { id: self.id, username: self.username@, image_id: self.image_id }
    }
}

impl User {
    pub fn clone(&self) -> (r: User)
        ensures
            r@ == self@,
    {
        User { id: self.id, username: self.username.clone(), image_id: self.image_id }
    }
}

/// A membership row: one user's membership in one chat.
#[derive(Clone, Copy, PartialEq, Eq, Structural, Debug)]
pub struct ChatParticipant {
    pub chat_id: ChatId,
    pub user_id: UserId,
    pub joined_at: i64,
}

/// A conversation: identity, optional display name, kind tag, creation
/// timestamp and its current participant set.
pub struct Chat {
    pub id: ChatId,
    pub name: Option<String>,
    pub chat_type: ChatType,
    pub created_at: i64,
    pub participants: Vec<ChatParticipant>,
}

#[verifier::ext_equal]
pub ghost struct ChatView {
    pub id: ChatId,
    pub name: Option<Seq<char>>,
    pub chat_type: ChatType,
    pub created_at: i64,
    pub participants: Seq<ChatParticipant>,
}

pub open spec fn opt_string_view(o: Option<String>) -> Option<Seq<char>> {
    match o {
        Option::Some(s) => Option::Some(s@),
        Option::None => Option::None,
    }
}

impl View for Chat {
    type V = ChatView;

    open spec fn view(&self) -> ChatView {
        ChatView {
            id: self.id,
            name: opt_string_view(self.name),
            chat_type: self.chat_type,
            created_at: self.created_at,
            participants: self.participants@,
        }
    }
}

impl ChatView {
    /// Whether `user` has a current membership row in this chat.
    pub open spec fn has_member(self, user: UserId) -> bool {
        exists|k: int| 0 <= k < self.participants.len() && self.participants[k].user_id == user
    }
}

pub fn clone_opt_string(o: &Option<String>) -> (r: Option<String>)
    ensures
        opt_string_view(r) == opt_string_view(*o),
{
    match o {
        Option::Some(s) => Option::Some(s.clone()),
        Option::None => Option::None,
    }
}

impl Chat {
    pub fn clone(&self) -> (r: Chat)
        ensures
            r@ == self@,
    {
        let mut participants: Vec<ChatParticipant> = Vec::new();
        let mut k: usize = 0;
        while k < self.participants.len()
            invariant
                k <= self.participants.len(),
                participants@.len() == k,
                forall|i: int| 0 <= i < k ==> participants@[i] == self.participants@[i],
            decreases self.participants.len() - k,
        {
            participants.push(self.participants[k]);
            k = k + 1;
        }
        proof {
            assert(participants@ =~= self.participants@);
        }
        Chat {
            id: self.id,
            name: clone_opt_string(&self.name),
            chat_type: self.chat_type,
            created_at: self.created_at,
            participants,
        }
    }
}

/// A stored attachment record, owned by the message it was sent with.
pub struct MediaAsset {
    pub id: FileId,
    pub file_type: FileType,
    pub url: String,
    pub filename: String,
    pub mime_type: Option<String>,
    pub size_bytes: i64,
    pub created_at: i64,
}

#[verifier::ext_equal]
pub ghost struct MediaAssetView {
    pub id: FileId,
    pub file_type: FileType,
    pub url: Seq<char>,
    pub filename: Seq<char>,
    pub mime_type: Option<Seq<char>>,
    pub size_bytes: i64,
    pub created_at: i64,
}

impl View for MediaAsset {
    type V = MediaAssetView;

    open spec fn view(&self) -> MediaAssetView {
        MediaAssetView {
            id: self.id,
            file_type: self.file_type,
            url: self.url@,
            filename: self.filename@,
            mime_type: opt_string_view(self.mime_type),
            size_bytes: self.size_bytes,
            created_at: self.created_at,
        }
    }
}

impl MediaAsset {
    pub fn clone(&self) -> (r: MediaAsset)
        ensures
            r@ == self@,
    {
        MediaAsset {
            id: self.id,
            file_type: self.file_type,
            url: self.url.clone(),
            filename: self.filename.clone(),
            mime_type: clone_opt_string(&self.mime_type),
            size_bytes: self.size_bytes,
            created_at: self.created_at,
        }
    }
}

/// A persisted message: immutable and append-only, stamped by the
/// pipeline with a non-decreasing server timestamp.
pub struct Message {
    pub id: MessageId,
    pub chat_id: ChatId,
    pub sender_id: UserId,
    pub content: Option<String>,
    pub timestamp: i64,
    pub files: Vec<MediaAsset>,
}

#[verifier::ext_equal]
pub ghost struct MessageView {
    pub id: MessageId,
    pub chat_id: ChatId,
    pub sender_id: UserId,
    pub content: Option<Seq<char>>,
    pub timestamp: i64,
    pub files: Seq<MediaAssetView>,
}

impl View for Message {
    type V = MessageView;

    open spec fn view(&self) -> MessageView {
        MessageView {
            id: self.id,
            chat_id: self.chat_id,
            sender_id: self.sender_id,
            content: opt_string_view(self.content),
            timestamp: self.timestamp,
            files: self.files@.map_values(|a: MediaAsset| a@),
        }
    }
}

impl Message {
    pub fn clone(&self) -> (r: Message)
        ensures
            r@ == self@,
    {
        let mut files: Vec<MediaAsset> = Vec::new();
        let mut k: usize = 0;
        while k < self.files.len()
            invariant
                k <= self.files.len(),
                files@.len() == k,
                forall|i: int| 0 <= i < k ==> files@[i]@ == self.files@[i]@,
            decreases self.files.len() - k,
        {
            files.push(self.files[k].clone());
            k = k + 1;
        }
        proof {
            assert(files@.map_values(|a: MediaAsset| a@) =~= self.files@.map_values(
                |a: MediaAsset| a@,
            ));
        }
        Message {
            id: self.id,
            chat_id: self.chat_id,
            sender_id: self.sender_id,
            content: clone_opt_string(&self.content),
            timestamp: self.timestamp,
            files,
        }
    }
}

/// The login request: a bare username; an unknown one registers a new
/// user.
pub struct CreateUser {
    pub username: String,
}

/// A request to resolve the canonical direct chat with another user.
pub struct InitiateChat {
    pub target_username: String,
}

/// One attachment reference as it arrives on the wire, before the store
/// assigns it an identity.
pub struct FileAssetIn {
    pub file_type: FileType,
    pub url: String,
    pub filename: String,
    pub mime_type: Option<String>,
    pub size_bytes: i64,
}

#[verifier::ext_equal]
pub ghost struct FileAssetInView {
    pub file_type: FileType,
    pub url: Seq<char>,
    pub filename: Seq<char>,
    pub mime_type: Option<Seq<char>>,
    pub size_bytes: i64,
}

impl View for FileAssetIn {
    type V = FileAssetInView;

    open spec fn view(&self) -> FileAssetInView {
        FileAssetInView {
            file_type: self.file_type,
            url: self.url@,
            filename: self.filename@,
            mime_type: opt_string_view(self.mime_type),
            size_bytes: self.size_bytes,
        }
    }
}

/// What the upload edge hands back to the client.
pub struct FileUploadResponse {
    pub url: String,
    pub filename: String,
    pub mime_type: Option<String>,
    pub size_bytes: i64,
}

/// An inbound message frame: target chat, optional text, optional
/// attachment references.
pub struct WsMessageIn {
    pub chat_id: ChatId,
    pub content: Option<String>,
    pub files: Option<Vec<FileAssetIn>>,
}

#[verifier::ext_equal]
pub ghost struct WsMessageInView {
    pub chat_id: ChatId,
    pub content: Option<Seq<char>>,
    pub files: Option<Seq<FileAssetInView>>,
}

impl View for WsMessageIn {
    type V = WsMessageInView;

    open spec fn view(&self) -> WsMessageInView {
        WsMessageInView {
            chat_id: self.chat_id,
            content: opt_string_view(self.content),
            files: match self.files {
                Option::Some(v) => Option::Some(v@.map_values(|a: FileAssetIn| a@)),
                Option::None => Option::None,
            },
        }
    }
}

impl WsMessageInView {
    /// The attachment list of a frame, with a missing list read as empty.
    pub open spec fn files_or_empty(self) -> Seq<FileAssetInView> {
        match self.files {
            Option::Some(f) => f,
            Option::None => Seq::empty(),
        }
    }
}

/// The issued bearer token.
pub struct AuthResponse {
    pub token: String,
}

/// What a bearer token certifies.
pub struct Claims {
    pub sub: String,
    pub user_id: UserId,
    pub username: String,
    pub exp: usize,
}

#[verifier::ext_equal]
pub ghost struct ClaimsView {
    pub sub: Seq<char>,
    pub user_id: UserId,
    pub username: Seq<char>,
    pub exp: usize,
}

impl View for Claims {
    type V = ClaimsView;

    open spec fn view(&self) -> ClaimsView {
        ClaimsView { sub: self.sub@, user_id: self.user_id, username: self.username@, exp: self.exp }
    }
}

/// The authenticated principal every pipeline entry point requires.
pub struct AuthenticatedUser {
    pub user_id: UserId,
    pub username: String,
}

#[verifier::ext_equal]
pub ghost struct AuthenticatedUserView {
    pub user_id: UserId,
    pub username: Seq<char>,
}

impl View for AuthenticatedUser {
    type V = AuthenticatedUserView;

    open spec fn view(&self) -> AuthenticatedUserView {
        AuthenticatedUserView { user_id: self.user_id, username: self.username@ }
    }
}

/// The resolver's answer: the canonical chat id and whether it already
/// existed.
pub struct InitiateDirectChatResponse {
    pub chat_id: ChatId,
    pub status: ChatStatus,
}

} // verus!

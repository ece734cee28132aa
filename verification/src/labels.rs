//! The enumerations that travel between clients and the database, with the
//! names under which they are written there.
use vstd::prelude::*;

verus! {

/// What a message carries.
#[allow(non_camel_case_types)]
#[derive(Clone, Copy, Debug, PartialEq, Eq, Structural)]
pub enum ContentLabel {
    text,
    video,
    audio,
    image,
    file,
}

/// How a payload is compressed.
#[allow(non_camel_case_types)]
#[derive(Clone, Copy, Debug, PartialEq, Eq, Structural)]
pub enum CompressionLabel {
    lz4,
    gzip,
    zstd,
    none,
}

/// How a payload is encrypted.
#[allow(non_camel_case_types)]
#[derive(Clone, Copy, Debug, PartialEq, Eq, Structural)]
pub enum EncryptionLabel {
    ecc,
    rsa,
    none,
}

/// The state of a friend request.
#[allow(non_camel_case_types)]
#[derive(Clone, Copy, Debug, PartialEq, Eq, Structural)]
pub enum RequestStatus {
    pending,
    accepted,
    declined,
}

pub open spec fn content_label_name(l: ContentLabel) -> Seq<char> {
    match l {
        ContentLabel::text => "text"@,
        ContentLabel::video => "video"@,
        ContentLabel::audio => "audio"@,
        ContentLabel::image => "image"@,
        ContentLabel::file => "file"@,
    }
}

pub open spec fn compression_label_name(l: CompressionLabel) -> Seq<char> {
    match l {
        CompressionLabel::lz4 => "lz4"@,
        CompressionLabel::gzip => "gzip"@,
        CompressionLabel::zstd => "zstd"@,
        CompressionLabel::none => "none"@,
    }
}

pub open spec fn encryption_label_name(l: EncryptionLabel) -> Seq<char> {
    match l {
        EncryptionLabel::ecc => "ecc"@,
        EncryptionLabel::rsa => "rsa"@,
        EncryptionLabel::none => "none"@,
    }
}

pub open spec fn request_status_name(s: RequestStatus) -> Seq<char> {
    match s {
        RequestStatus::pending => "pending"@,
        RequestStatus::accepted => "accepted"@,
        RequestStatus::declined => "declined"@,
    }
}

impl ContentLabel {
    /// The variant's name, as the database's `content_label` type spells it
    /// and as JSON carries it.
    pub fn name(&self) -> (res: &'static str)
        ensures
            res@ == content_label_name(*self),
    {
        match self {
            ContentLabel::text => "text",
            ContentLabel::video => "video",
            ContentLabel::audio => "audio",
            ContentLabel::image => "image",
            ContentLabel::file => "file",
        }
    }
}

impl CompressionLabel {
    /// The variant's name, as the database's `compression_label` type spells it.
    pub fn name(&self) -> (res: &'static str)
        ensures
            res@ == compression_label_name(*self),
    {
        match self {
            CompressionLabel::lz4 => "lz4",
            CompressionLabel::gzip => "gzip",
            CompressionLabel::zstd => "zstd",
            CompressionLabel::none => "none",
        }
    }
}

impl EncryptionLabel {
    /// The variant's name, as the database's `encryption_label` type spells it.
    pub fn name(&self) -> (res: &'static str)
        ensures
            res@ == encryption_label_name(*self),
    {
        match self {
            EncryptionLabel::ecc => "ecc",
            EncryptionLabel::rsa => "rsa",
            EncryptionLabel::none => "none",
        }
    }
}

impl RequestStatus {
    /// The lower-case name under which the database's `request_status_type`
    /// stores the status.
    pub fn name(&self) -> (res: &'static str)
        ensures
            res@ == request_status_name(*self),
    {
        match self {
            RequestStatus::pending => "pending",
            RequestStatus::accepted => "accepted",
            RequestStatus::declined => "declined",
        }
    }
}

/// Different message kinds are written under different names, so the stored
/// label identifies the kind.
pub proof fn lemma_content_label_names_distinct(a: ContentLabel, b: ContentLabel)
    requires
        a != b,
    ensures
        content_label_name(a) != content_label_name(b),
{
    reveal_strlit("text");
    reveal_strlit("video");
    reveal_strlit("audio");
    reveal_strlit("image");
    reveal_strlit("file");
    assert("text"@.len() == 4 && "file"@.len() == 4);
    assert("video"@.len() == 5 && "audio"@.len() == 5 && "image"@.len() == 5);
    assert("text"@[0] != "file"@[0]);
    assert("video"@[0] != "audio"@[0] && "video"@[0] != "image"@[0] && "audio"@[0] != "image"@[0]);
}

/// Different request states are written under different names.
pub proof fn lemma_request_status_names_distinct(a: RequestStatus, b: RequestStatus)
    requires
        a != b,
    ensures
        request_status_name(a) != request_status_name(b),
{
    reveal_strlit("pending");
    reveal_strlit("accepted");
    reveal_strlit("declined");
    assert("pending"@.len() == 7 && "accepted"@.len() == 8 && "declined"@.len() == 8);
    assert("accepted"@[0] != "declined"@[0]);
}

} // verus!

//! The handler that hands out the server's public SSH key.

use vstd::prelude::*;
use vstd::string::*;
use crate::util::{ResponseData, ResponseNoData, ResponseUtil};

verus! {

/// What was found where the public key is kept.
#[derive(Debug, Clone, PartialEq, Eq)]
pub enum KeyFile {
    /// The server has no home directory to look in.
    NoHome,
    /// There is a home directory, but the key file in it cannot be read.
    Unreadable,
    /// The text of the key file.
    Content(String),
}

/// The reply to a request for the public key.
#[derive(Debug, Clone, PartialEq, Eq)]
pub enum KeyReply {
    Found(ResponseData<String>),
    Missing(ResponseNoData),
}

/// Answers a request for the public key.
///
/// The key is handed out as it was read. A key file that cannot be read is
/// reported to the client; a missing home directory is an error of the
/// server.
pub fn get_ssh_public_key(key_file: KeyFile) -> (r: Result<KeyReply, String>)
    ensures
        match key_file {
            KeyFile::NoHome => r is Err && r->Err_0@ == "服务器内部错误"@,
            KeyFile::Unreadable => {
                &&& r matches Ok(KeyReply::Missing(reply))
                &&& !reply.success
                &&& reply.message is Some
                &&& reply.message.unwrap()@ == "服务器上不存在公钥文件 .ssh/id_rsa.pub"@
            },
            KeyFile::Content(key) => r == Ok::<KeyReply, String>(
                KeyReply::Found(ResponseData { success: true, result: key }),
            ),
        },
{
    match key_file {
        KeyFile::Content(key) => Ok(KeyReply::Found(ResponseUtil::data(key))),
        KeyFile::Unreadable => Ok(
            KeyReply::Missing(ResponseUtil::error("服务器上不存在公钥文件 .ssh/id_rsa.pub")),
        ),
        KeyFile::NoHome => Err(String::from_str("服务器内部错误")),
    }
}

} // verus!

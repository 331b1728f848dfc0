//! The local vector store location: only absolute local paths are accepted, never remote or
//! cloud URIs.
use vstd::prelude::*;

use crate::text::chars_of;
use crate::text::find_chars;
use crate::text::find_first;
use crate::text::lemma_find_from;
use crate::text::string_of;

use crate::restore::rooted_path;

verus! {

/// Why a vector store location was refused.
#[derive(Debug, Clone)]
pub enum VectorStoreError {
    InvalidInput { message: String },
}

impl VectorStoreError {
    /// The text of the error.
    pub fn message(&self) -> (r: String)
        ensures
            match self {
                VectorStoreError::InvalidInput { message } => r@ == message@,
            },
    {
        match self {
            VectorStoreError::InvalidInput { message } => message.clone(),
        }
    }
}

/// The vector store of the knowledge base, kept in a local folder.
#[derive(Debug, Clone)]
pub struct LanceVectorStore {
    path: String,
}

/// Whether a character may appear in a URI scheme: ASCII letters and digits, `+`, `-`, `.`.
pub open spec fn is_scheme_char(c: char) -> bool {
    ('a' <= c && c <= 'z') || ('A' <= c && c <= 'Z') || ('0' <= c && c <= '9') || c == '+' || c == '-' || c
        == '.'
}

/// Whether a location starts with a URI scheme: text before the first `:` made of scheme
/// characters only. A single character before the `:` is a drive letter, not a scheme.
pub open spec fn has_scheme(value: Seq<char>) -> bool {
    match find_first(value, seq![':']) {
        None => false,
        Some(i) => i >= 2 && forall|k: int| 0 <= k < i ==> is_scheme_char(#[trigger] value[k]),
    }
}

/// Whether a location starts with a URI scheme.
pub fn has_uri_scheme(value: &str) -> (r: bool)
    ensures
        r == has_scheme(value@),
{
    let v = chars_of(value);
    let colon: Vec<char> = vec![':'];
    assert(colon@ =~= seq![':']);
    match find_chars(v.as_slice(), colon.as_slice()) {
        None => false,
        Some(i) => {
            proof {
                lemma_find_from(v@, colon@, 0);
            }
            if i < 2 {
                return false;
            }
            let mut k: usize = 0;
            while k < i
                invariant
                    k <= i,
                    i <= v@.len(),
                    v@ == value@,
                    find_first(value@, seq![':']) == Some(i as int),
                    forall|j: int| 0 <= j < k ==> is_scheme_char(#[trigger] v@[j]),
                decreases i - k,
            {
                let c = v[k];
                if !(('a' <= c && c <= 'z') || ('A' <= c && c <= 'Z') || ('0' <= c && c <= '9') || c == '+' || c
                    == '-' || c == '.') {
                    assert(!is_scheme_char(v@[k as int]));
                    return false;
                }
                k = k + 1;
            }
            true
        },
    }
}

/// Calls `std::path::Path::is_absolute`. Its answer depends on the platform's path rules
/// (a leading `/` on Unix; a prefix and a root on Windows, such as `C:\` or a `\\` UNC or
/// verbatim prefix), so only what holds on every platform is stated: an absolute path starts
/// with a separator or with a drive letter and a colon. When such a path counts as absolute
/// is left unsaid.
#[verifier::external_body]
fn path_is_absolute(path: &str) -> (r: bool)
    ensures
        r ==> rooted_path(path@),
{
    std::path::Path::new(path).is_absolute()
}

/// The message for a remote or cloud location.
pub open spec fn remote_message() -> Seq<char> {
    "本地向量库禁止使用远程 URI 或云端地址"@
}

/// The message for a relative location.
pub open spec fn relative_message() -> Seq<char> {
    "本地向量库路径必须是绝对路径"@
}

impl LanceVectorStore {
    /// A store in the folder `path`.
    pub fn new(path: String) -> (r: LanceVectorStore)
        ensures
            r.path_view() == path@,
    {
        LanceVectorStore { path }
    }

    /// The folder of the store.
    pub closed spec fn path_view(&self) -> Seq<char> {
        self.path@
    }

    /// The folder of the store.
    pub fn path(&self) -> (r: &str)
        ensures
            r@ == self.path_view(),
    {
        self.path.as_str()
    }

    /// The location handed to the vector database: refused when it starts with a URI scheme,
    /// or, failing that, when it is not an absolute path.
    pub fn local_uri(&self) -> (r: Result<&str, VectorStoreError>)
        ensures
            has_scheme(self.path_view()) ==> (r matches Err(VectorStoreError::InvalidInput { message: m }) && m@
                == remote_message()),
            r matches Ok(u) ==> u@ == self.path_view() && !has_scheme(self.path_view()),
            !has_scheme(self.path_view()) && r is Err ==> (r matches Err(VectorStoreError::InvalidInput {
                message: m,
            }) && m@ == relative_message()),
            !has_scheme(self.path_view()) && !rooted_path(self.path_view()) ==> (r matches Err(
                VectorStoreError::InvalidInput { message: m },
            ) && m@ == relative_message()),
    {
        if has_uri_scheme(self.path.as_str()) {
            return Err(
                VectorStoreError::InvalidInput {
                    message: string_of(chars_of("本地向量库禁止使用远程 URI 或云端地址").as_slice()),
                },
            );
        }
        if !path_is_absolute(self.path.as_str()) {
            return Err(
                VectorStoreError::InvalidInput {
                    message: string_of(chars_of("本地向量库路径必须是绝对路径").as_slice()),
                },
            );
        }
        Ok(self.path.as_str())
    }
}

} // verus!

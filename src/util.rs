use vstd::prelude::*;

verus! {

/// The path that joining `dest` onto `base` gives.
pub uninterp spec fn joined_path(base: Seq<char>, dest: Seq<char>) -> Seq<char>;

/// Relies on `Path::join`: the result depends on the two paths alone.
#[verifier::external_body]
fn join_path(base: &String, dest: &str) -> (r: String)
    ensures
        r@ == joined_path(base@, dest@),
{
    std::path::Path::new(base).join(dest).to_string_lossy().into_owned()
}

/// A directory that files are served from.
pub struct Directory {
    buf: String,
}

impl Directory {
    /// The directory at `path`, if the file system reports it as a
    /// directory (`is_dir`).
    pub fn new(path: String, is_dir: bool) -> (r: Option<Self>)
        ensures
            r is Some <==> is_dir,
            r matches Some(d) ==> d.path()@ == path@,
    {
        if is_dir {
            Some(Self { buf: path })
        } else {
            None
        }
    }

    pub closed spec fn path(&self) -> String {
        self.buf
    }

    /// The path of `dest` inside this directory.
    pub fn path_to(&self, dest: &str) -> (r: String)
        ensures
            r@ == joined_path(self.path()@, dest@),
    {
        join_path(&self.buf, dest)
    }
}

} // verus!

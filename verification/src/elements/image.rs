//! Images: where one comes from and its bytes.
use vstd::prelude::*;

verus! {

/// Where an image comes from.
#[derive(Clone, Debug, PartialEq)]
pub enum ImagePath {
    Local(String),
    URL(String),
}

/// An image: its source and its encoded bytes.
#[derive(Clone, Debug, PartialEq)]
pub struct Image {
    path: ImagePath,
    bytes: Vec<u8>,
    ext_id: u64,
}

impl ImagePath {
    /// The file to read the image from: only local images are read.
    pub fn local_file(&self) -> (f: Option<&String>)
        ensures
            f == match *self {
                ImagePath::Local(s) => Some(&s),
                ImagePath::URL(_) => None::<&String>,
            },
    {
        match self {
            ImagePath::Local(s) => Some(s),
            ImagePath::URL(_) => None,
        }
    }
}

impl Image {
    pub closed spec fn path(&self) -> ImagePath {
        self.path
    }

    pub closed spec fn bytes(&self) -> Seq<u8> {
        self.bytes@
    }

    pub closed spec fn ext_id(&self) -> u64 {
        self.ext_id
    }

    /// The image from `path` once its file was read: `read` holds the bytes
    /// read, or nothing when the file could not be read. There is an image only
    /// for a local path whose file was read.
    pub fn from_read(path: ImagePath, read: Option<Vec<u8>>) -> (img: Option<Image>)
        ensures
            img is Some <==> (path is Local && read is Some),
            img matches Some(i) ==> i.path() == path && i.bytes() == read->0@ && i.ext_id() == 0,
    {
        match (&path, read) {
            (ImagePath::Local(_), Some(bytes)) => Some(Image { path, bytes, ext_id: 0 }),
            _ => None,
        }
    }

    pub fn get_path(&self) -> (p: &ImagePath)
        ensures
            *p == self.path(),
    {
        &self.path
    }

    pub fn get_bytes(&self) -> (b: &Vec<u8>)
        ensures
            b@ == self.bytes(),
    {
        &self.bytes
    }
}

} // verus!

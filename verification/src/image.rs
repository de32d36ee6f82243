use vstd::prelude::*;

verus! {

/// Which kind of CSS image layer list (`background-image` or `mask-image`) to
/// flush from style to dedicated storage on the node.
#[derive(Clone, Copy, Debug, PartialEq, Eq, Structural)]
pub enum ImageLayerKind {
    Background,
    Mask,
}

/// Where an image on a node comes from: the element's own image, or one layer
/// of its background or mask image list.
#[derive(Clone, Copy, Debug, PartialEq, Eq, Structural)]
pub enum ImageType {
    Image,
    Background(usize),
    Mask(usize),
}

impl ImageLayerKind {
    /// The image type of layer `idx` of this kind of layer list.
    pub fn image_type(self, idx: usize) -> (res: ImageType)
        ensures
            self == ImageLayerKind::Background ==> res == ImageType::Background(idx),
            self == ImageLayerKind::Mask ==> res == ImageType::Mask(idx),
    {
        match self {
            ImageLayerKind::Background => ImageType::Background(idx),
            ImageLayerKind::Mask => ImageType::Mask(idx),
        }
    }
}

/// A point
#[derive(Clone, Debug, Copy, Eq, PartialEq)]
pub struct Point<T> {
    /// The x coordinate
    pub x: T,
    /// The y coordinate
    pub y: T,
}

} // verus!

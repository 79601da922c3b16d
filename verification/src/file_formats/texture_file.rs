//! The texture container as the image writers take it. It is decoded and
//! its elements are written as those of a `Texture` are.

use vstd::prelude::*;
use vstd::slice::slice_to_vec;

use crate::file_formats::texture::element_views;
use crate::file_formats::texture::parse_element;
use crate::file_formats::texture::parse_texture;
use crate::file_formats::texture::put_element;
use crate::file_formats::texture::write_element;
use crate::file_formats::texture::Texture;
use crate::file_formats::texture::TextureElement;
use crate::file_formats::texture::TextureElementView;
use crate::file_formats::texture::TextureView;
use crate::helpers::byte::ByteCursor;
use crate::helpers::error::CodecError;
use crate::helpers::serializable::SerializableExt;
use crate::helpers::serializable::SerializablePartExt;

verus! {

/// A decoded texture container.
pub struct TextureFile {
    pub le: bool,
    pub unknown_06: u8,
    pub dimension: u8,
    pub format: u32,
    pub width: u16,
    pub height: u16,
    pub depth: u16,
    pub flags: u16,
    pub mip_count: u8,
    pub header_mip_count: u8,
    pub unknown_1c: u32,
    pub elements: Vec<Element>,
}

/// One element of a `TextureFile`.
pub struct Element {
    pub offset: u32,
    pub size: u32,
    pub unknown_8: u16,
    pub unknown_a: u8,
    pub is_external: bool,
    pub contents: Vec<u8>,
}

impl View for Element {
    type V = TextureElementView;

    open spec fn view(&self) -> TextureElementView {
        TextureElementView {
            offset: self.offset,
            size: self.size,
            unknown_8: self.unknown_8,
            unknown_a: self.unknown_a,
            is_external: self.is_external,
            contents: self.contents@,
        }
    }
}

/// The views of a run of elements.
pub open spec fn views_of(elements: Seq<Element>) -> Seq<TextureElementView> {
    elements.map_values(|element: Element| element@)
}

impl View for TextureFile {
    type V = TextureView;

    open spec fn view(&self) -> TextureView {
        TextureView {
            le: self.le,
            unknown_06: self.unknown_06,
            dimension: self.dimension,
            format: self.format,
            width: self.width,
            height: self.height,
            depth: self.depth,
            flags: self.flags,
            mip_count: self.mip_count,
            header_mip_count: self.header_mip_count,
            unknown_1c: self.unknown_1c,
            elements: views_of(self.elements@),
        }
    }
}

impl Element {
    /// Whether the element holds as many payload bytes as it declares.
    pub open spec fn wf(&self) -> bool {
        self@.wf()
    }

    /// The same element, as an element of a `TextureFile`.
    pub fn from_texture_element(element: TextureElement) -> (converted: Element)
        ensures
            converted@ == element@,
    {
        Element {
            offset: element.offset,
            size: element.size,
            unknown_8: element.unknown_8,
            unknown_a: element.unknown_a,
            is_external: element.is_external,
            contents: element.contents,
        }
    }
}

impl TextureFile {
    /// Whether the container has its eight elements, each with its payload.
    pub open spec fn wf(&self) -> bool {
        self@.wf()
    }

    /// The same container, as the image writers take it.
    pub fn from_texture(texture: Texture) -> (converted: TextureFile)
        ensures
            converted@ == texture@,
    {
        let mut remaining = texture.elements;
        let mut elements: Vec<Element> = Vec::new();
        let ghost all = element_views(remaining@);
        assert(views_of(elements@) + element_views(remaining@) =~= all);
        while remaining.len() > 0
            invariant
                views_of(elements@) + element_views(remaining@) == all,
            decreases remaining@.len(),
        {
            let ghost done = views_of(elements@);
            let ghost left = element_views(remaining@);
            let element = remaining.remove(0);
            let converted = Element::from_texture_element(element);
            elements.push(converted);
            assert(views_of(elements@) =~= done.push(converted@));
            assert(element_views(remaining@) =~= left.subrange(1, left.len() as int));
            assert(views_of(elements@) + element_views(remaining@) =~= done + left);
        }
        assert(views_of(elements@) =~= all);
        TextureFile {
            le: texture.le,
            unknown_06: texture.unknown_06,
            dimension: texture.dimension,
            format: texture.format,
            width: texture.width,
            height: texture.height,
            depth: texture.depth,
            flags: texture.flags,
            mip_count: texture.mip_count,
            header_mip_count: texture.header_mip_count,
            unknown_1c: texture.unknown_1c,
            elements,
        }
    }
}

impl SerializablePartExt for Element {
    fn read(input: &mut ByteCursor, le: bool) -> (r: Result<Element, CodecError>)
        ensures
            final(input).decoded_from(
                old(input),
                r,
                parse_element(old(input).data@, old(input).position as int, le),
            ),
            r matches Ok(element) ==> element.wf() && final(input).position == old(input).position
                + 12,
    {
        let element = TextureElement::read(input, le)?;
        Ok(Element::from_texture_element(element))
    }

    fn write(&self, output: &mut ByteCursor, le: bool) -> (r: Result<(), CodecError>)
        ensures
            final(output).encoded_as(
                r,
                write_element(old(output).data@, old(output).position as int, self@, le),
            ),
    {
        put_element(
            output,
            Ghost(self@),
            self.offset,
            self.size,
            self.unknown_8,
            self.unknown_a,
            self.is_external,
            &self.contents,
            le,
        )
    }
}

impl SerializableExt for TextureFile {
    fn deserialize(input: &mut ByteCursor) -> (r: Result<TextureFile, CodecError>)
        ensures
            final(input).decoded_from(
                old(input),
                r,
                parse_texture(old(input).data@, old(input).position as int),
            ),
            r matches Ok(texture) ==> texture.wf() && final(input).position == old(input).position
                + 128,
    {
        let texture = Texture::deserialize(input)?;
        Ok(TextureFile::from_texture(texture))
    }

    fn deserialize_from_bytes(bytes: &[u8]) -> (r: Result<TextureFile, CodecError>)
        ensures
            match r {
                Ok(texture) => texture.wf() && parse_texture(bytes@, 0).result == Ok::<
                    TextureView,
                    CodecError,
                >(texture@),
                Err(e) => parse_texture(bytes@, 0).result == Err::<TextureView, CodecError>(e),
            },
    {
        let mut input = ByteCursor::new(slice_to_vec(bytes));
        TextureFile::deserialize(&mut input)
    }
}

} // verus!

//! `multipart/form-data` bodies: an ordered list of named fields laid out
//! as bytes between boundary lines.

use crate::body::{chunk_bytes, chunks_view, first_failure, lemma_chunks_concat, lemma_chunks_push, Body, BodyView, Chunk, ChunkView};
use crate::boundary::{gen_boundary, is_boundary, seed};
use crate::error::{Error, ErrorView, Kind};
use crate::headers::{entries_of, header_entries, header_list, Entry};
use crate::percent::{lemma_encoded_len, PercentEncoding};
use crate::text::text_view;
use bytes::Bytes;
use http::HeaderMap;
use vstd::prelude::*;
use vstd::utf8::encode_utf8;

verus! {

/// What is known of a field besides its value, as plain data.
pub struct PartMetadataView {
    /// The media type, as it is written in a `Content-Type` header.
    pub mime: Option<Seq<char>>,
    /// The file name.
    pub file_name: Option<Seq<char>>,
    /// Further headers, in the order in which their map is walked.
    pub headers: Seq<Entry>,
}

impl PartMetadataView {
    /// Metadata that says nothing: no media type, no file name, no headers.
    pub open spec fn blank() -> PartMetadataView {
        PartMetadataView { mime: None, file_name: None, headers: Seq::empty() }
    }
}

/// What is known of a field besides its value.
#[derive(Debug)]
pub struct PartMetadata {
    mime: Option<String>,
    file_name: Option<String>,
    /// Further headers of the field, written after the others as they are.
    pub headers: HeaderMap,
}

impl View for PartMetadata {
    type V = PartMetadataView;

    closed spec fn view(&self) -> PartMetadataView {
        PartMetadataView {
            mime: text_view(self.mime),
            file_name: text_view(self.file_name),
            headers: header_entries(self.headers),
        }
    }
}

/// The written form of the media type that `mime_guess::Mime` reads out of a
/// text; nothing where the text is no media type.
pub uninterp spec fn mime_parsed(text: Seq<char>) -> Option<Seq<char>>;

/// Parses the text as a `mime_guess::Mime` and writes the media type out
/// again with its `Display`.
#[verifier::external_body]
fn parse_mime(text: &str) -> (mime: Option<String>)
    ensures
        text_view(mime) == mime_parsed(text@),
{
    text.parse::<mime_guess::Mime>().ok().map(|mime| mime.to_string())
}

impl PartMetadata {
    /// Metadata that says nothing: no media type, no file name, no headers.
    pub fn new() -> (meta: PartMetadata)
        ensures
            meta@ == PartMetadataView::blank(),
    {
        PartMetadata { mime: None, file_name: None, headers: HeaderMap::new() }
    }

    /// The same metadata with the given media type, whose written form is
    /// taken as it is.
    pub fn mime(self, mime: String) -> (meta: PartMetadata)
        ensures
            meta@ == (PartMetadataView { mime: Some(mime@), ..self@ }),
    {
        PartMetadata { mime: Some(mime), file_name: self.file_name, headers: self.headers }
    }

    /// The same metadata with the given file name.
    pub fn file_name(self, filename: &str) -> (meta: PartMetadata)
        ensures
            meta@ == (PartMetadataView { file_name: Some(filename@), ..self@ }),
    {
        PartMetadata { mime: self.mime, file_name: Some(filename.to_owned()), headers: self.headers }
    }
}

/// Whether the byte is written with a backslash before it in a file name.
pub open spec fn needs_backslash(byte: u8) -> bool {
    byte == 0x5c || byte == 0x22 || byte == 0x0d || byte == 0x0a
}

/// The bytes of a file name with a backslash before each backslash, double
/// quote, carriage return and line feed.
pub open spec fn backslashed(bytes: Seq<u8>) -> Seq<u8>
    decreases bytes.len(),
{
    if bytes.len() == 0 {
        Seq::empty()
    } else if needs_backslash(bytes.last()) {
        backslashed(bytes.drop_last()) + seq![0x5cu8, bytes.last()]
    } else {
        backslashed(bytes.drop_last()) + seq![bytes.last()]
    }
}

/// The `filename` parameter: always quoted, whatever the escaping rule.
pub open spec fn filename_parameter(filename: Seq<char>) -> Seq<u8> {
    encode_utf8("filename=\""@) + backslashed(encode_utf8(filename)) + encode_utf8("\""@)
}

/// The further headers of a field, each on a line of its own.
pub open spec fn extra_headers(entries: Seq<Entry>) -> Seq<u8>
    decreases entries.len(),
{
    if entries.len() == 0 {
        Seq::empty()
    } else {
        extra_headers(entries.drop_last()) + encode_utf8("\r\n"@) + encode_utf8(entries.last().0) + encode_utf8(
            ": "@,
        ) + entries.last().1
    }
}

impl PercentEncoding {
    /// A parameter of a header under this rule: quoted and as it is where
    /// the rule escapes none of its bytes, else in the extended form with the
    /// escaped bytes.
    pub open spec fn parameter(self, name: Seq<char>, value: Seq<char>) -> Seq<u8> {
        let plain = encode_utf8(value);
        if self.escapes_any(plain) {
            encode_utf8(name) + encode_utf8("*=utf-8''"@) + self.encoded(plain)
        } else {
            encode_utf8(name) + encode_utf8("=\""@) + plain + encode_utf8("\""@)
        }
    }

    /// The headers of a field under this rule, without the empty line that
    /// ends them.
    pub open spec fn headers(self, name: Seq<char>, meta: PartMetadataView) -> Seq<u8> {
        encode_utf8("Content-Disposition: form-data; "@) + self.parameter("name"@, name) + (match meta.file_name {
            Some(filename) => encode_utf8("; "@) + filename_parameter(filename),
            None => Seq::empty(),
        }) + (match meta.mime {
            Some(mime) => encode_utf8("\r\nContent-Type: "@) + encode_utf8(mime),
            None => Seq::empty(),
        }) + extra_headers(meta.headers)
    }

    /// Writes the headers of a field.
    pub fn encode_headers(&self, name: &str, field: &PartMetadata) -> (header: Vec<u8>)
        ensures
            header@ == self.headers(name@, field@),
    {
        let mut header: Vec<u8> = Vec::new();
        header.extend_from_slice("Content-Disposition: form-data; ".as_bytes());
        let parameter = self.format_parameter("name", name);
        header.extend_from_slice(parameter.as_slice());
        match &field.file_name {
            Some(filename) => {
                header.extend_from_slice("; ".as_bytes());
                let parameter = self.format_filename(filename.as_str());
                header.extend_from_slice(parameter.as_slice());
            },
            None => {},
        }
        match &field.mime {
            Some(mime) => {
                header.extend_from_slice("\r\nContent-Type: ".as_bytes());
                header.extend_from_slice(mime.as_str().as_bytes());
            },
            None => {},
        }
        let ghost fixed = header@;
        let extra = header_list(&field.headers);
        let mut i: usize = 0;
        while i < extra.len()
            invariant
                i <= extra.len(),
                header@ == fixed + extra_headers(entries_of(extra@).take(i as int)),
            decreases extra.len() - i,
        {
            proof {
                let all = entries_of(extra@);
                assert(all.take(i as int + 1).drop_last() =~= all.take(i as int));
            }
            header.extend_from_slice("\r\n".as_bytes());
            header.extend_from_slice(extra[i].0.as_str().as_bytes());
            header.extend_from_slice(": ".as_bytes());
            header.extend_from_slice(extra[i].1.as_slice());
            i = i + 1;
        }
        proof {
            assert(entries_of(extra@).take(i as int) =~= entries_of(extra@));
        }
        header
    }

    /// Writes the `filename` parameter. The file name is quoted and its
    /// backslashes, double quotes, carriage returns and line feeds get a
    /// backslash before them; the escaping rule plays no part.
    pub fn format_filename(&self, filename: &str) -> (parameter: Vec<u8>)
        ensures
            parameter@ == filename_parameter(filename@),
    {
        let bytes = filename.as_bytes();
        let mut parameter: Vec<u8> = Vec::new();
        parameter.extend_from_slice("filename=\"".as_bytes());
        let ghost opened = parameter@;
        let mut i: usize = 0;
        while i < bytes.len()
            invariant
                i <= bytes.len(),
                parameter@ == opened + backslashed(bytes@.take(i as int)),
            decreases bytes.len() - i,
        {
            let byte = bytes[i];
            proof {
                assert(bytes@.take(i as int + 1).drop_last() =~= bytes@.take(i as int));
            }
            if byte == 0x5c || byte == 0x22 || byte == 0x0d || byte == 0x0a {
                parameter.push(0x5c);
            }
            parameter.push(byte);
            i = i + 1;
        }
        assert(bytes@.take(i as int) =~= bytes@);
        parameter.extend_from_slice("\"".as_bytes());
        parameter
    }

    /// Writes a parameter of a header under this rule.
    pub fn format_parameter(&self, name: &str, value: &str) -> (parameter: Vec<u8>)
        ensures
            parameter@ == self.parameter(name@, value@),
    {
        let legal_value = self.encode(value.as_bytes());
        proof {
            lemma_encoded_len(*self, encode_utf8(value@));
        }
        let mut parameter: Vec<u8> = Vec::new();
        parameter.extend_from_slice(name.as_bytes());
        if value.as_bytes().len() == legal_value.len() {
            parameter.extend_from_slice("=\"".as_bytes());
            parameter.extend_from_slice(value.as_bytes());
            parameter.extend_from_slice("\"".as_bytes());
        } else {
            parameter.extend_from_slice("*=utf-8''".as_bytes());
            parameter.extend_from_slice(legal_value.as_slice());
        }
        parameter
    }
}

/// A field of a form as plain data.
pub struct PartView {
    pub meta: PartMetadataView,
    pub value: BodyView,
}

/// A field in a multipart form.
#[derive(Debug)]
pub struct Part {
    /// What is known of the field besides its value.
    pub meta: PartMetadata,
    value: Body,
}

impl View for Part {
    type V = PartView;

    closed spec fn view(&self) -> PartView {
        PartView { meta: self.meta@, value: self.value@ }
    }
}

impl Part {
    /// A field whose value is the given text.
    pub fn text(value: &str) -> (part: Part)
        ensures
            part@ == (PartView { meta: PartMetadataView::blank(), value: BodyView::Reusable(encode_utf8(value@)) }),
    {
        Part::new(Body::from_text(value))
    }

    /// A field whose value is the given bytes.
    pub fn bytes(value: Vec<u8>) -> (part: Part)
        ensures
            part@ == (PartView { meta: PartMetadataView::blank(), value: BodyView::Reusable(value@) }),
    {
        Part::new(Body::from_vec(value))
    }

    /// A field whose value is the given body, which may be a stream.
    pub fn stream(value: Body) -> (part: Part)
        ensures
            part@ == (PartView { meta: PartMetadataView::blank(), value: value@ }),
    {
        Part::new(value)
    }

    /// A field with the given value and nothing else known of it.
    pub fn new(value: Body) -> (part: Part)
        ensures
            part@ == (PartView { meta: PartMetadataView::blank(), value: value@ }),
    {
        Part { meta: PartMetadata::new(), value }
    }

    /// Sets the media type of the field from its written form. A text that
    /// is no media type gives an error of kind `Builder`.
    pub fn mime_str(self, mime: &str) -> (made: Result<Part, Error>)
        ensures
            match mime_parsed(mime@) {
                Some(written) => made matches Ok(part) && part@ == (PartView {
                    meta: PartMetadataView { mime: Some(written), ..self@.meta },
                    value: self@.value,
                }),
                None => made matches Err(error) && error@.kind == Kind::Builder,
            },
    {
        match parse_mime(mime) {
            Some(written) => Ok(Part { meta: self.meta.mime(written), value: self.value }),
            None => Err(Error::new(Kind::Builder, "invalid media type".to_owned())),
        }
    }

    /// Sets the file name of the field.
    pub fn file_name(self, filename: &str) -> (part: Part)
        ensures
            part@ == (PartView {
                meta: PartMetadataView { file_name: Some(filename@), ..self@.meta },
                value: self@.value,
            }),
    {
        Part { meta: self.meta.file_name(filename), value: self.value }
    }

    /// The length of the value, where it is known.
    pub fn value_len(&self) -> (length: Option<u64>)
        ensures
            length.is_some() == self@.value.content_length().is_some(),
            length matches Some(n) ==> Some(n as nat) == self@.value.content_length(),
    {
        self.value.content_length()
    }

    /// What is known of the field besides its value.
    pub fn metadata(&self) -> (meta: &PartMetadata)
        ensures
            meta@ == self@.meta,
    {
        &self.meta
    }
}

/// A form as plain data.
pub struct FormView {
    /// The delimiter between the fields.
    pub boundary: Seq<char>,
    /// The headers that length predictions have written so far.
    pub computed_headers: Seq<Seq<u8>>,
    /// The fields by name, in the order in which they were added.
    pub fields: Seq<(Seq<char>, PartView)>,
    /// The rule by which header parameters are escaped.
    pub percent_encoding: PercentEncoding,
}

/// The plain form of a list of named fields.
pub open spec fn fields_view(fields: Seq<(String, Part)>) -> Seq<(Seq<char>, PartView)> {
    fields.map_values(|field: (String, Part)| (field.0@, field.1@))
}

impl FormView {
    /// The headers of field `i`.
    pub open spec fn header_of(self, i: int) -> Seq<u8> {
        self.percent_encoding.headers(self.fields[i].0, self.fields[i].1.meta)
    }

    /// The number of fields before the first whose value has no known
    /// length, counted among the first `n`.
    pub open spec fn known_prefix(self, n: int) -> int
        decreases n,
    {
        if n <= 0 {
            0
        } else if self.known_prefix(n - 1) == n - 1 && self.fields[n - 1].1.value is Reusable {
            n
        } else {
            self.known_prefix(n - 1)
        }
    }

    /// Whether some field has a stream for its value.
    pub open spec fn has_streaming_field(self) -> bool {
        exists|k: int| 0 <= k < self.fields.len() && (#[trigger] self.fields[k]).1.value is Streaming
    }

    /// Whether the value of every field has a known length.
    pub open spec fn all_known(self) -> bool {
        self.known_prefix(self.fields.len() as int) == self.fields.len()
    }

    /// The bytes that field `i` takes on the wire where its value is a
    /// buffer: the boundary line, the headers, an empty line, the value and a
    /// line break.
    pub open spec fn field_length(self, i: int) -> int {
        2 + encode_utf8(self.boundary).len() + 2 + self.header_of(i).len() + 4 + (match self.fields[i].1.value {
            BodyView::Reusable(bytes) => bytes.len() as int,
            BodyView::Streaming(_) => 0,
        }) + 2
    }

    /// The bytes that the first `n` fields take on the wire.
    pub open spec fn fields_length(self, n: int) -> int
        decreases n,
    {
        if n <= 0 {
            0
        } else {
            self.fields_length(n - 1) + self.field_length(n - 1)
        }
    }

    /// The bytes that the whole form takes on the wire: its fields and,
    /// where it has any, the closing boundary line.
    pub open spec fn total_length(self) -> int {
        self.fields_length(self.fields.len() as int) + if self.fields.len() > 0 {
            2 + encode_utf8(self.boundary).len() + 4
        } else {
            0
        }
    }

    /// The length that can be announced for the form: none where a value
    /// has no known length, and none where the length does not fit the type.
    pub open spec fn predicted_length(self) -> Option<u64> {
        if self.all_known() && self.total_length() <= u64::MAX {
            Some(self.total_length() as u64)
        } else {
            None
        }
    }

    /// The headers of the first `n` fields.
    pub open spec fn headers_upto(self, n: int) -> Seq<Seq<u8>> {
        Seq::new(n as nat, |i: int| self.header_of(i))
    }

    /// The line that opens a field.
    pub open spec fn opening(self) -> Seq<u8> {
        encode_utf8("--"@) + encode_utf8(self.boundary) + encode_utf8("\r\n"@)
    }

    /// The line that closes the form.
    pub open spec fn closing(self) -> Seq<u8> {
        encode_utf8("--"@) + encode_utf8(self.boundary) + encode_utf8("--\r\n"@)
    }

    /// The chunks of a field with the given name: the boundary line, the
    /// headers with the empty line after them, the chunks of the value, and a
    /// line break.
    pub open spec fn chunks_of(self, name: Seq<char>, part: PartView) -> Seq<ChunkView> {
        seq![
            Ok(self.opening()),
            Ok(self.percent_encoding.headers(name, part.meta) + encode_utf8("\r\n\r\n"@)),
        ] + part.value.chunks() + seq![Ok(encode_utf8("\r\n"@))]
    }

    /// The chunks of field `i`.
    pub open spec fn part_chunks(self, i: int) -> Seq<ChunkView> {
        self.chunks_of(self.fields[i].0, self.fields[i].1)
    }

    /// The chunks of the first `n` fields.
    pub open spec fn chunks_upto(self, n: int) -> Seq<ChunkView>
        decreases n,
    {
        if n <= 0 {
            Seq::empty()
        } else {
            self.chunks_upto(n - 1) + self.part_chunks(n - 1)
        }
    }

    /// The body that the form becomes: an empty buffer where it has no
    /// field, else a stream of the chunks of its fields in order and the
    /// closing boundary line.
    pub open spec fn stream(self) -> BodyView {
        if self.fields.len() == 0 {
            BodyView::Reusable(Seq::empty())
        } else {
            BodyView::Streaming(self.chunks_upto(self.fields.len() as int) + seq![Ok(self.closing())])
        }
    }
}

/// The fields of a form with its boundary and its escaping rule.
#[derive(Debug)]
pub struct FormParts {
    boundary: String,
    computed_headers: Vec<Vec<u8>>,
    fields: Vec<(String, Part)>,
    percent_encoding: PercentEncoding,
}

impl View for FormParts {
    type V = FormView;

    closed spec fn view(&self) -> FormView {
        FormView {
            boundary: self.boundary@,
            computed_headers: self.computed_headers@.map_values(|header: Vec<u8>| header@),
            fields: fields_view(self.fields@),
            percent_encoding: self.percent_encoding,
        }
    }
}

impl FormParts {
    /// A form without fields, with a boundary made for it, that escapes as
    /// for a path segment.
    pub fn new() -> (form: FormParts)
        ensures
            is_boundary(form@.boundary),
            form@ == (FormView {
                boundary: form@.boundary,
                computed_headers: Seq::empty(),
                fields: Seq::empty(),
                percent_encoding: PercentEncoding::PathSegment,
            }),
    {
        let mut state = seed();
        FormParts::with_boundary(gen_boundary(&mut state))
    }

    /// A form without fields that uses the given boundary and escapes as
    /// for a path segment.
    pub fn with_boundary(boundary: String) -> (form: FormParts)
        ensures
            form@ == (FormView {
                boundary: boundary@,
                computed_headers: Seq::empty(),
                fields: Seq::empty(),
                percent_encoding: PercentEncoding::PathSegment,
            }),
    {
        let form = FormParts {
            boundary,
            computed_headers: Vec::new(),
            fields: Vec::new(),
            percent_encoding: PercentEncoding::PathSegment,
        };
        assert(form@.computed_headers =~= Seq::empty());
        assert(form@.fields =~= Seq::empty());
        form
    }

    /// The boundary that this form uses.
    pub fn boundary(&self) -> (boundary: &str)
        ensures
            boundary@ == self@.boundary,
    {
        self.boundary.as_str()
    }

    /// Adds a field after those that the form has.
    pub fn part(self, name: &str, part: Part) -> (form: FormParts)
        ensures
            form@ == (FormView { fields: self@.fields.push((name@, part@)), ..self@ }),
    {
        let mut form = self;
        form.fields.push((name.to_owned(), part));
        assert(form@.fields =~= self@.fields.push((name@, part@)));
        form
    }

    /// Escapes header parameters as for a path segment.
    pub fn percent_encode_path_segment(self) -> (form: FormParts)
        ensures
            form@ == (FormView { percent_encoding: PercentEncoding::PathSegment, ..self@ }),
    {
        let mut form = self;
        form.percent_encoding = PercentEncoding::PathSegment;
        form
    }

    /// Escapes header parameters down to `attr-char`.
    pub fn percent_encode_attr_chars(self) -> (form: FormParts)
        ensures
            form@ == (FormView { percent_encoding: PercentEncoding::AttrChar, ..self@ }),
    {
        let mut form = self;
        form.percent_encoding = PercentEncoding::AttrChar;
        form
    }

    /// Escapes nothing in header parameters.
    pub fn percent_encode_noop(self) -> (form: FormParts)
        ensures
            form@ == (FormView { percent_encoding: PercentEncoding::NoOp, ..self@ }),
    {
        let mut form = self;
        form.percent_encoding = PercentEncoding::NoOp;
        form
    }

    /// Takes the fields out of the form and leaves it without any.
    pub fn take_fields(&mut self) -> (fields: Vec<(String, Part)>)
        ensures
            fields_view(fields@) == old(self)@.fields,
            final(self)@ == (FormView { fields: Seq::empty(), ..old(self)@ }),
    {
        let mut fields: Vec<(String, Part)> = Vec::new();
        std::mem::swap(&mut self.fields, &mut fields);
        assert(self@.fields =~= Seq::empty());
        fields
    }

    /// Predicts the length of the body that the form becomes, where every
    /// value has a known length: for each field the boundary line, the
    /// headers, an empty line, the value and a line break, and after the last
    /// field the closing boundary line.
    ///
    /// The headers of each field that comes before the first value of
    /// unknown length are written in passing and kept.
    pub fn compute_length(&mut self) -> (length: Option<u64>)
        ensures
            length == old(self)@.predicted_length(),
            old(self)@.has_streaming_field() ==> length is None,
            length matches Some(n) ==> old(self)@.stream().read() matches Ok(bytes) && bytes.len() == n,
            final(self)@ == (FormView {
                computed_headers: old(self)@.computed_headers + old(self)@.headers_upto(
                    old(self)@.known_prefix(old(self)@.fields.len() as int),
                ),
                ..old(self)@
            }),
    {
        let ghost start = self@;
        proof {
            lemma_known_prefix(start, start.fields.len() as int);
            if start.all_known() {
                lemma_predicted_length_is_stream_length(start);
            }
        }
        let boundary_length = self.boundary.as_str().as_bytes().len() as u64;
        let mut total: Option<u64> = Some(0);
        let mut i: usize = 0;
        while i < self.fields.len()
            invariant
                i <= self.fields.len(),
                start == old(self)@,
                self@ == (FormView { computed_headers: start.computed_headers + start.headers_upto(i as int), ..start }),
                boundary_length == encode_utf8(start.boundary).len(),
                start.known_prefix(i as int) == i,
                start.fields_length(i as int) >= 0,
                total matches Some(sum) ==> sum == start.fields_length(i as int),
                total is None ==> start.fields_length(i as int) > u64::MAX,
            decreases self.fields.len() - i,
        {
            match self.fields[i].1.value_len() {
                Some(value_length) => {
                    let header = self.percent_encoding.encode_headers(self.fields[i].0.as_str(), self.fields[i].1.metadata());
                    let header_length = header.len() as u64;
                    let ghost cached = self@.computed_headers;
                    self.computed_headers.push(header);
                    assert(self@.computed_headers =~= cached.push(start.header_of(i as int)));
                    total = add_length(total, 2);
                    total = add_length(total, boundary_length);
                    total = add_length(total, 2);
                    total = add_length(total, header_length);
                    total = add_length(total, 4);
                    total = add_length(total, value_length);
                    total = add_length(total, 2);
                    proof {
                        assert(start.headers_upto(i as int + 1) =~= start.headers_upto(i as int).push(start.header_of(i as int)));
                    }
                },
                None => {
                    proof {
                        lemma_known_prefix_stops(start, i as int, start.fields.len() as int);
                    }
                    return None;
                },
            }
            i = i + 1;
        }
        if self.fields.len() > 0 {
            total = add_length(total, 2);
            total = add_length(total, boundary_length);
            total = add_length(total, 4);
        }
        total
    }

    /// The chunks of one field of this form.
    pub fn part_stream(&self, name: &str, part: Part) -> (chunks: Vec<Chunk>)
        ensures
            chunks_view(chunks@) == self@.chunks_of(name@, part@),
    {
        let ghost given = part@;
        let mut opening: Vec<u8> = Vec::new();
        opening.extend_from_slice("--".as_bytes());
        opening.extend_from_slice(self.boundary.as_str().as_bytes());
        opening.extend_from_slice("\r\n".as_bytes());
        assert(opening@ =~= self@.opening());
        let mut header = self.percent_encoding.encode_headers(name, &part.meta);
        header.extend_from_slice("\r\n\r\n".as_bytes());
        let ghost header_bytes = header@;
        let mut ending: Vec<u8> = Vec::new();
        ending.extend_from_slice("\r\n".as_bytes());
        assert(ending@ =~= encode_utf8("\r\n"@));
        let mut chunks: Vec<Chunk> = Vec::new();
        chunks.push(Ok(Bytes::from(opening)));
        chunks.push(Ok(Bytes::from(header)));
        let ghost head = chunks_view(chunks@);
        let mut value = part.value.into_chunks();
        chunks.append(&mut value);
        chunks.push(Ok(Bytes::from(ending)));
        proof {
            assert(header_bytes == self@.percent_encoding.headers(name@, given.meta) + encode_utf8("\r\n\r\n"@));
            assert(head =~= seq![
                Ok::<Seq<u8>, ErrorView>(self@.opening()),
                Ok::<Seq<u8>, ErrorView>(self@.percent_encoding.headers(name@, given.meta) + encode_utf8("\r\n\r\n"@)),
            ]);
        }
        chunks
    }

    /// Turns the form into the body of a request.
    pub fn stream(self) -> (body: Body)
        ensures
            body@ == self@.stream(),
    {
        if self.fields.len() == 0 {
            return Body::empty();
        }
        let ghost start = self@;
        let mut form = self;
        let fields = form.take_fields();
        let mut closing: Vec<u8> = Vec::new();
        closing.extend_from_slice("--".as_bytes());
        closing.extend_from_slice(form.boundary.as_str().as_bytes());
        closing.extend_from_slice("--\r\n".as_bytes());
        assert(closing@ =~= start.closing());
        let mut chunks: Vec<Chunk> = Vec::new();
        for field in it: fields
            invariant
                fields_view(fields@) == start.fields,
                form@.boundary == start.boundary,
                form@.percent_encoding == start.percent_encoding,
                chunks_view(chunks@) == start.chunks_upto(it.index() as int),
        {
            let (name, part) = field;
            let mut piece = form.part_stream(name.as_str(), part);
            chunks.append(&mut piece);
        }
        let ghost done = chunks_view(chunks@);
        chunks.push(Ok(Bytes::from(closing)));
        assert(chunks_view(chunks@) =~= done + seq![Ok::<Seq<u8>, ErrorView>(start.closing())]);
        Body::from_chunks(chunks)
    }
}

/// Adds to a running total that may already have left the range of its type.
fn add_length(total: Option<u64>, amount: u64) -> (sum: Option<u64>)
    ensures
        sum == (match total {
            Some(before) => if before + amount <= u64::MAX {
                Some((before + amount) as u64)
            } else {
                None
            },
            None => None,
        }),
{
    match total {
        Some(before) => before.checked_add(amount),
        None => None,
    }
}

/// Once a field has a value of unknown length, no later field counts as
/// known.
pub proof fn lemma_known_prefix_stops(form: FormView, k: int, n: int)
    requires
        0 <= k < n <= form.fields.len(),
        form.known_prefix(k) == k,
        form.fields[k].1.value is Streaming,
    ensures
        form.known_prefix(n) == k,
    decreases n - k,
{
    if n > k + 1 {
        lemma_known_prefix_stops(form, k, n - 1);
    }
}

/// A multipart/form-data request.
#[derive(Debug)]
pub struct Form {
    inner: FormParts,
}

impl View for Form {
    type V = FormView;

    closed spec fn view(&self) -> FormView {
        self.inner@
    }
}

impl Form {
    /// A form without any content, with a boundary made for it.
    pub fn new() -> (form: Form)
        ensures
            is_boundary(form@.boundary),
            form@ == (FormView {
                boundary: form@.boundary,
                computed_headers: Seq::empty(),
                fields: Seq::empty(),
                percent_encoding: PercentEncoding::PathSegment,
            }),
    {
        Form { inner: FormParts::new() }
    }

    /// A form without any content that uses the given boundary. The
    /// boundary must not occur in the content that the form is given.
    pub fn with_boundary(boundary: &str) -> (form: Form)
        ensures
            form@ == (FormView {
                boundary: boundary@,
                computed_headers: Seq::empty(),
                fields: Seq::empty(),
                percent_encoding: PercentEncoding::PathSegment,
            }),
    {
        Form { inner: FormParts::with_boundary(boundary.to_owned()) }
    }

    /// The boundary that this form uses.
    pub fn boundary(&self) -> (boundary: &str)
        ensures
            boundary@ == self@.boundary,
    {
        self.inner.boundary()
    }

    /// Adds a field with the given name and a text as its value.
    pub fn text(self, name: &str, value: &str) -> (form: Form)
        ensures
            form@ == (FormView {
                fields: self@.fields.push(
                    (name@, PartView { meta: PartMetadataView::blank(), value: BodyView::Reusable(encode_utf8(value@)) }),
                ),
                ..self@
            }),
    {
        self.part(name, Part::text(value))
    }

    /// Adds a field.
    pub fn part(self, name: &str, part: Part) -> (form: Form)
        ensures
            form@ == (FormView { fields: self@.fields.push((name@, part@)), ..self@ }),
    {
        Form { inner: self.inner.part(name, part) }
    }

    /// Escapes header parameters as for a path segment.
    pub fn percent_encode_path_segment(self) -> (form: Form)
        ensures
            form@ == (FormView { percent_encoding: PercentEncoding::PathSegment, ..self@ }),
    {
        Form { inner: self.inner.percent_encode_path_segment() }
    }

    /// Escapes header parameters down to `attr-char`.
    pub fn percent_encode_attr_chars(self) -> (form: Form)
        ensures
            form@ == (FormView { percent_encoding: PercentEncoding::AttrChar, ..self@ }),
    {
        Form { inner: self.inner.percent_encode_attr_chars() }
    }

    /// Escapes nothing in header parameters.
    pub fn percent_encode_noop(self) -> (form: Form)
        ensures
            form@ == (FormView { percent_encoding: PercentEncoding::NoOp, ..self@ }),
    {
        Form { inner: self.inner.percent_encode_noop() }
    }

    /// Turns the form into the body of a request.
    pub fn stream(self) -> (body: Body)
        ensures
            body@ == self@.stream(),
    {
        self.inner.stream()
    }

    /// Predicts the length of the body that the form becomes.
    pub fn compute_length(&mut self) -> (length: Option<u64>)
        ensures
            length == old(self)@.predicted_length(),
            old(self)@.has_streaming_field() ==> length is None,
            length matches Some(n) ==> old(self)@.stream().read() matches Ok(bytes) && bytes.len() == n,
            final(self)@ == (FormView {
                computed_headers: old(self)@.computed_headers + old(self)@.headers_upto(
                    old(self)@.known_prefix(old(self)@.fields.len() as int),
                ),
                ..old(self)@
            }),
    {
        self.inner.compute_length()
    }
}

/// The fields counted as known are a prefix of the fields, and each of them
/// has a buffer for its value.
pub proof fn lemma_known_prefix(form: FormView, n: int)
    requires
        0 <= n <= form.fields.len(),
    ensures
        0 <= form.known_prefix(n) <= n,
        forall|i: int| 0 <= i < form.known_prefix(n) ==> (#[trigger] form.fields[i]).1.value is Reusable,
        form.known_prefix(n) < n ==> form.fields[form.known_prefix(n)].1.value is Streaming,
        forall|m: int| 0 <= m <= form.known_prefix(n) ==> form.known_prefix(m) == m,
    decreases n,
{
    if n > 0 {
        lemma_known_prefix(form, n - 1);
    }
}

/// A form with a field whose value is a stream has no predicted length.
pub proof fn lemma_streaming_field_hides_length(form: FormView)
    requires
        form.has_streaming_field(),
    ensures
        form.predicted_length() is None,
{
    lemma_known_prefix(form, form.fields.len() as int);
}

/// The lengths of the fixed pieces of the layout.
pub proof fn lemma_fixed_lengths()
    ensures
        encode_utf8("--"@).len() == 2,
        encode_utf8("\r\n"@).len() == 2,
        encode_utf8("\r\n\r\n"@).len() == 4,
        encode_utf8("--\r\n"@).len() == 4,
{
    reveal_strlit("--");
    reveal_strlit("\r\n");
    reveal_strlit("\r\n\r\n");
    reveal_strlit("--\r\n");
    vstd::utf8::is_ascii_chars_encode_utf8("--"@);
    vstd::utf8::is_ascii_chars_encode_utf8("\r\n"@);
    vstd::utf8::is_ascii_chars_encode_utf8("\r\n\r\n"@);
    vstd::utf8::is_ascii_chars_encode_utf8("--\r\n"@);
}

/// The chunks of a field whose value is a buffer carry as many bytes as the
/// prediction counts for the field, and none of them is a failure.
pub proof fn lemma_field_length(form: FormView, i: int)
    requires
        0 <= i < form.fields.len(),
        form.fields[i].1.value is Reusable,
    ensures
        chunk_bytes(form.part_chunks(i)).len() == form.field_length(i),
        first_failure(form.part_chunks(i)) is None,
{
    lemma_fixed_lengths();
    let part = form.fields[i].1;
    let none = Seq::<ChunkView>::empty();
    let opening: ChunkView = Ok(form.opening());
    let header: ChunkView = Ok(form.header_of(i) + encode_utf8("\r\n\r\n"@));
    let ending: ChunkView = Ok(encode_utf8("\r\n"@));
    let head = seq![opening, header];
    let value = part.value.chunks();
    lemma_chunks_push(none, opening);
    lemma_chunks_push(none.push(opening), header);
    assert(head =~= none.push(opening).push(header));
    if value.len() > 0 {
        lemma_chunks_push(none, value[0]);
    }
    lemma_chunks_concat(head, value);
    lemma_chunks_push(head + value, ending);
    assert(form.part_chunks(i) =~= (head + value).push(ending));
}

/// The chunks of the first `n` fields, all with buffers for values, carry
/// as many bytes as the prediction counts for them, and none is a failure.
pub proof fn lemma_fields_length(form: FormView, n: int)
    requires
        0 <= n <= form.fields.len(),
        form.known_prefix(n) == n,
    ensures
        chunk_bytes(form.chunks_upto(n)).len() == form.fields_length(n),
        first_failure(form.chunks_upto(n)) is None,
    decreases n,
{
    if n > 0 {
        lemma_known_prefix(form, n);
        lemma_fields_length(form, n - 1);
        lemma_field_length(form, n - 1);
        lemma_chunks_concat(form.chunks_upto(n - 1), form.part_chunks(n - 1));
    }
}

/// Where every value of a form is a buffer, reading the body that the form
/// becomes gives exactly as many bytes as the prediction counts, and the
/// predicted length is that count wherever it fits the type.
pub proof fn lemma_predicted_length_is_stream_length(form: FormView)
    requires
        form.all_known(),
    ensures
        form.stream().read() matches Ok(bytes) && bytes.len() == form.total_length(),
        form.total_length() <= u64::MAX ==> form.predicted_length() == Some(form.total_length() as u64),
{
    let n = form.fields.len() as int;
    lemma_fields_length(form, n);
    lemma_fixed_lengths();
    if n > 0 {
        let closing: ChunkView = Ok(form.closing());
        lemma_chunks_push(form.chunks_upto(n), closing);
        assert(form.stream().chunks() =~= form.chunks_upto(n).push(closing));
    }
}

} // verus!

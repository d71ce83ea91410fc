//! Pages of query results and the success-or-error envelope of a response.

use vstd::prelude::*;

verus! {

/// One page of a query's rows, with where it lies in the whole result.
#[derive(Debug)]
pub struct Page<T> {
    /// The rows of this page, in the order of the query.
    pub data: Vec<T>,
    /// Index of this page, counted from zero.
    pub current_page: i64,
    /// Number of pages in the whole result, or 0 where it was not counted.
    pub num_pages: i64,
    /// The size that was asked for, after capping.
    pub page_size: i64,
}

impl<T> Page<T> {
    pub fn new(data: Vec<T>, current_page: i64, num_pages: i64, page_size: i64) -> (page: Page<T>)
        ensures
            page.data == data,
            page.current_page == current_page,
            page.num_pages == num_pages,
            page.page_size == page_size,
    {
        Page { data, current_page, num_pages, page_size }
    }

    /// The rows of the page.
    pub fn as_slice(&self) -> (rows: &[T])
        ensures
            rows@ == self.data@,
    {
        self.data.as_slice()
    }

    /// The page that holds, for each row, what `mapper` makes of it: the rows
    /// keep their order, and the page keeps its index, count and size.
    pub fn map<F, R>(self, mapper: F) -> (mapped: Page<R>) where F: Fn(T) -> R
        requires
            forall|i: int| 0 <= i < self.data.len() ==> call_requires(mapper, (#[trigger] self.data[i],)),
        ensures
            mapped.data.len() == self.data.len(),
            forall|i: int|
                0 <= i < self.data.len() ==> call_ensures(mapper, (self.data[i],), #[trigger] mapped.data[i]),
            mapped.current_page == self.current_page,
            mapped.num_pages == self.num_pages,
            mapped.page_size == self.page_size,
    {
        let Page { data, current_page, num_pages, page_size } = self;
        let mut out: Vec<R> = Vec::new();
        for row in it: data
            invariant
                out.len() == it.index(),
                it.seq() == data@,
                forall|i: int| 0 <= i < data.len() ==> call_requires(mapper, (#[trigger] data[i],)),
                forall|i: int| 0 <= i < out.len() ==> call_ensures(mapper, (data[i],), #[trigger] out[i]),
        {
            out.push(mapper(row));
        }
        Page { data: out, current_page, num_pages, page_size }
    }
}

/// The body of a JSON response: the payload of a success or the error of a failure.
#[derive(Debug, PartialEq, Eq)]
pub enum JsonResponse<T, E> {
    Result(T),
    Error(E),
}

impl<T, E> JsonResponse<T, E> {
    /// The status of the response: `ok_status` for a payload, `err_status` for an error.
    pub fn status(&self, ok_status: u16, err_status: u16) -> (status: u16)
        ensures
            status == match self {
                JsonResponse::Result(_) => ok_status,
                JsonResponse::Error(_) => err_status,
            },
    {
        match self {
            JsonResponse::Result(_) => ok_status,
            JsonResponse::Error(_) => err_status,
        }
    }
}

impl<T, E> From<Result<T, E>> for JsonResponse<T, E> {
    fn from(result: Result<T, E>) -> (response: JsonResponse<T, E>)
        ensures
            response == match result {
                Ok(v) => JsonResponse::<T, E>::Result(v),
                Err(e) => JsonResponse::<T, E>::Error(e),
            },
    {
        match result {
            Ok(v) => JsonResponse::Result(v),
            Err(e) => JsonResponse::Error(e),
        }
    }
}

impl<T, E> vstd::std_specs::convert::FromSpecImpl<Result<T, E>> for JsonResponse<T, E> {
    open spec fn obeys_from_spec() -> bool {
        true
    }

    open spec fn from_spec(result: Result<T, E>) -> JsonResponse<T, E> {
        match result {
            Ok(v) => JsonResponse::Result(v),
            Err(e) => JsonResponse::Error(e),
        }
    }
}

/// The HTML that the CommonMark renderer makes of a Markdown source.
pub uninterp spec fn commonmark_html(source: Seq<char>) -> Seq<char>;

/// Renders Markdown locally. Calls `markdown::to_html`, which compiles its
/// argument to HTML by the CommonMark rules with default options; the result
/// depends on the argument alone.
#[verifier::external_body]
pub(crate) fn convert_markdown_plain(content: &str) -> (html: String)
    ensures
        html@ == commonmark_html(content@),
{
    markdown::to_html(content)
}

/// What came of asking the remote Markdown service to render a source.
#[derive(Debug, PartialEq, Eq)]
pub enum RemoteRendering {
    /// No answer: the service could not be reached, or it took too long.
    Unreachable,
    /// The service answered with this HTTP status and body.
    Answered { status: u16, body: String },
}

impl RemoteRendering {
    /// The HTML that the service delivered: the body of an answer with a 2xx status.
    pub open spec fn delivered(self) -> Option<Seq<char>> {
        match self {
            RemoteRendering::Answered { status, body } => if 200 <= status < 300 {
                Some(body@)
            } else {
                None
            },
            RemoteRendering::Unreachable => None,
        }
    }
}

/// The HTML for `input`: what the remote service delivered, or, where it
/// delivered nothing, what the local renderer makes of `input`.
pub fn markdown_to_html(input: &str, remote: RemoteRendering) -> (html: String)
    ensures
        html@ == match remote.delivered() {
            Some(body) => body,
            None => commonmark_html(input@),
        },
{
    match remote {
        RemoteRendering::Answered { status, body } => {
            if 200 <= status && status < 300 {
                body
            } else {
                convert_markdown_plain(input)
            }
        },
        RemoteRendering::Unreachable => convert_markdown_plain(input),
    }
}

/// Nanoseconds in one second.
pub const NANOS_PER_SEC: u64 = 1_000_000_000;

/// Splits a span of `nanos` nanoseconds into whole seconds and the
/// nanoseconds left over, of which there are less than a second.
pub fn split_nanos(nanos: u64) -> (parts: (u64, u32))
    ensures
        parts.0 * NANOS_PER_SEC + parts.1 == nanos,
        parts.1 < NANOS_PER_SEC,
{
    let seconds = nanos / NANOS_PER_SEC;
    let rest = nanos % NANOS_PER_SEC;
    (seconds, rest as u32)
}

} // verus!

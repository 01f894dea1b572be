//! Pages, responses, routes and the server's route table.

use vstd::prelude::*;
use vstd::std_specs::cmp::PartialEqSpecImpl;
use vstd::std_specs::convert::FromSpecImpl;

use crate::html_args::HtmlArgs;
use crate::path::head_end;
use crate::path::head_len;
use crate::path::path_head;
use crate::path::path_rest;
use crate::path::prefix_match;
use crate::path::route_args;
use crate::request::parse_request;
use crate::request::parse_request_line;
use crate::text::chars_of;
use crate::text::same_chars;
use crate::text::slice_of;
use crate::text::split_chars;
use crate::text::string_from_chars;
use crate::text::views;

verus! {

/// Trusted: declares `std::io::Error`, which the library carries through
/// without looking inside.
#[verifier::external_type_specification]
#[verifier::external_body]
pub struct ExIoError(std::io::Error);

/// Why a connection could not be answered.
#[derive(Debug)]
pub enum ConnectionHandlingError {
    /// The transport or the template store failed.
    IOError(std::io::Error),
    /// The request line could not be parsed.
    MalformedRequest(String),
    /// The matched route's handler reported a failure.
    RouteParseError(String),
    /// No route answers the path.
    NonexistentRoute(String),
}

impl From<std::io::Error> for ConnectionHandlingError {
    /// A failure of the transport or of the template store.
    fn from(value: std::io::Error) -> (e: Self) {
        Self::IOError(value)
    }
}

impl FromSpecImpl<std::io::Error> for ConnectionHandlingError {
    open spec fn obeys_from_spec() -> bool {
        true
    }

    open spec fn from_spec(value: std::io::Error) -> Self {
        Self::IOError(value)
    }
}

/// Trusted: the `Display` text of a `std::io::Error`, through `to_string`.
/// The text depends on the operating system, so nothing is stated of it.
#[verifier::external_body]
fn io_error_text(error: &std::io::Error) -> (text: String) {
    error.to_string()
}

/// The text that reports a route that does not exist.
pub open spec fn nonexistent_route_text(route: Seq<char>) -> Seq<char> {
    "Nonexistent route: `"@ + route + "`"@
}

impl ConnectionHandlingError {
    /// Whether `text` can be the text of this error. The text of a transport
    /// failure is the operating system's; the others are fixed.
    pub open spec fn has_text(&self, text: Seq<char>) -> bool {
        match self {
            Self::IOError(_) => true,
            Self::MalformedRequest(m) => text == m@,
            Self::RouteParseError(m) => text == m@,
            Self::NonexistentRoute(r) => text == nonexistent_route_text(r@),
        }
    }

    /// The text of the error.
    pub fn to_string(&self) -> (text: String)
        ensures
            self.has_text(text@),
    {
        match self {
            Self::IOError(e) => io_error_text(e),
            Self::MalformedRequest(m) => m.clone(),
            Self::RouteParseError(m) => m.clone(),
            Self::NonexistentRoute(r) => {
                let mut text: String = String::from_str("Nonexistent route: `");
                text.append(r.as_str());
                text.append("`");
                text
            },
        }
    }
}

pub type ConnectionHandlingResult = Result<(), ConnectionHandlingError>;

pub type QueryParseResult = Result<Response, String>;

/// The key under which an error page receives its message.
pub open spec fn error_key() -> Seq<char> {
    "error"@
}

/// What a page is, as plain values.
pub struct PageView {
    pub page: Seq<char>,
    pub args: Option<Seq<(Seq<char>, Seq<char>)>>,
}

/// A template file and the values to fill it with.
#[derive(Debug)]
pub struct Page {
    page: String,
    args: Option<HtmlArgs>,
}

impl View for Page {
    type V = PageView;

    closed spec fn view(&self) -> PageView {
        PageView {
            page: self.page@,
            args: match self.args {
                Some(a) => Some(a@),
                None => None,
            },
        }
    }
}

impl Page {
    /// The page that renders the template at `page` with `args`.
    #[must_use]
    pub fn new(page: String, args: Option<HtmlArgs>) -> (p: Self)
        ensures
            p@.page == page@,
            p@.args == (match args {
                Some(a) => Some(a@),
                None => None,
            }),
    {
        Self { page, args }
    }

    /// The path of the template file.
    pub fn template_path(&self) -> (path: &str)
        ensures
            path@ == self@.page,
    {
        self.page.as_str()
    }

    /// The values that fill the template, if any.
    pub fn args(&self) -> (args: Option<&HtmlArgs>)
        ensures
            match args {
                Some(a) => self@.args == Some(a@),
                None => self@.args is None,
            },
    {
        self.args.as_ref()
    }
}

impl Clone for Page {
    fn clone(&self) -> (copy: Self)
        ensures
            copy@ == self@,
    {
        let args = match &self.args {
            Some(a) => Some(a.clone()),
            None => None,
        };
        Page { page: self.page.clone(), args }
    }
}

/// What an error page is, as plain values.
pub struct ErrorPageView {
    pub page: Seq<char>,
    pub args: Seq<char>,
}

/// A template file and the error message to show in it.
#[derive(Debug)]
pub struct ErrorPage {
    page: String,
    args: String,
}

impl View for ErrorPage {
    type V = ErrorPageView;

    closed spec fn view(&self) -> ErrorPageView {
        ErrorPageView { page: self.page@, args: self.args@ }
    }
}

impl ErrorPage {
    /// The page that shows the message `args` in the template at `page`.
    #[must_use]
    pub fn new(page: String, args: String) -> (p: Self)
        ensures
            p@ == (ErrorPageView { page: page@, args: args@ }),
    {
        Self { page, args }
    }
}

impl Clone for ErrorPage {
    fn clone(&self) -> (copy: Self)
        ensures
            copy@ == self@,
    {
        ErrorPage { page: self.page.clone(), args: self.args.clone() }
    }
}

impl PartialEq for ErrorPage {
    fn eq(&self, other: &Self) -> (r: bool) {
        self.page == other.page && self.args == other.args
    }
}

impl Eq for ErrorPage {

}

impl PartialEqSpecImpl for ErrorPage {
    open spec fn obeys_eq_spec() -> bool {
        true
    }

    open spec fn eq_spec(&self, other: &Self) -> bool {
        self@ == other@
    }
}

/// The page that shows an error: its template, with the message under the
/// key `error`.
pub open spec fn error_page_as_page(e: ErrorPageView) -> PageView {
    PageView { page: e.page, args: Some(seq![(error_key(), e.args)]) }
}

impl From<ErrorPage> for Page {
    fn from(value: ErrorPage) -> (p: Self)
        ensures
            p@ == error_page_as_page(value@),
    {
        let mut args = HtmlArgs::new();
        args.insert(String::from_str("error"), value.args);
        let p = Page::new(value.page, Some(args));
        proof {
            assert(p@.args->0 =~= seq![(error_key(), value@.args)]);
        }
        p
    }
}

impl FromSpecImpl<ErrorPage> for Page {
    open spec fn obeys_from_spec() -> bool {
        false
    }

    open spec fn from_spec(value: ErrorPage) -> Self {
        arbitrary()
    }
}

/// The status of a response.
#[allow(non_camel_case_types)]
#[derive(Debug, Clone, Copy, PartialEq, Eq, Structural)]
pub enum HttpStatus {
    OK,
    NotFound,
}

/// The status line that announces `status`.
pub open spec fn status_text(status: HttpStatus) -> Seq<char> {
    match status {
        HttpStatus::OK => "HTTP/1.1 200 OK"@,
        HttpStatus::NotFound => "HTTP/1.1 404 NOT FOUND"@,
    }
}

impl HttpStatus {
    /// The status line.
    pub fn to_string(&self) -> (line: String)
        ensures
            line@ == status_text(*self),
    {
        match self {
            Self::OK => String::from_str("HTTP/1.1 200 OK"),
            Self::NotFound => String::from_str("HTTP/1.1 404 NOT FOUND"),
        }
    }

    /// The status code.
    pub fn code(&self) -> (code: u32)
        ensures
            code == (match *self {
                HttpStatus::OK => 200u32,
                HttpStatus::NotFound => 404u32,
            }),
    {
        match self {
            Self::OK => 200,
            Self::NotFound => 404,
        }
    }
}

/// What a response is, as plain values.
pub struct ResponseView {
    pub status_line: HttpStatus,
    pub page: PageView,
}

/// A status and the page to render under it.
#[derive(Debug)]
pub struct Response {
    status_line: HttpStatus,
    page: Page,
}

impl View for Response {
    type V = ResponseView;

    closed spec fn view(&self) -> ResponseView {
        ResponseView { status_line: self.status_line, page: self.page@ }
    }
}

impl Response {
    /// The response that renders `page` under `status_line`.
    #[must_use]
    pub fn new(status_line: HttpStatus, page: Page) -> (r: Self)
        ensures
            r@ == (ResponseView { status_line, page: page@ }),
    {
        Self { status_line, page }
    }

    /// The status of the response.
    pub fn status(&self) -> (status: HttpStatus)
        ensures
            status == self@.status_line,
    {
        self.status_line
    }

    /// The page of the response.
    pub fn page(&self) -> (page: &Page)
        ensures
            page@ == self@.page,
    {
        &self.page
    }
}

impl Clone for Response {
    fn clone(&self) -> (copy: Self)
        ensures
            copy@ == self@,
    {
        Response { status_line: self.status_line, page: self.page.clone() }
    }
}

/// The page served when no route answers a request.
pub struct NotFoundResponse {
    page: Page,
}

impl View for NotFoundResponse {
    type V = PageView;

    closed spec fn view(&self) -> PageView {
        self.page@
    }
}

impl NotFoundResponse {
    /// The not-found response that renders `page`.
    #[must_use]
    pub fn new(page: Page) -> (r: Self)
        ensures
            r@ == page@,
    {
        Self { page }
    }
}

/// The page served in place of a request that failed.
#[derive(Debug)]
pub struct ErrorResponse {
    page: ErrorPage,
}

impl View for ErrorResponse {
    type V = ErrorPageView;

    closed spec fn view(&self) -> ErrorPageView {
        self.page@
    }
}

impl ErrorResponse {
    /// The error response that renders `page`.
    #[must_use]
    pub fn new(page: ErrorPage) -> (r: Self)
        ensures
            r@ == page@,
    {
        Self { page }
    }
}

impl Clone for ErrorResponse {
    fn clone(&self) -> (copy: Self)
        ensures
            copy@ == self@,
    {
        ErrorResponse { page: self.page.clone() }
    }
}

impl PartialEq for ErrorResponse {
    fn eq(&self, other: &Self) -> (r: bool) {
        self.page == other.page
    }
}

impl Eq for ErrorResponse {

}

impl PartialEqSpecImpl for ErrorResponse {
    open spec fn obeys_eq_spec() -> bool {
        true
    }

    open spec fn eq_spec(&self, other: &Self) -> bool {
        self@ == other@
    }
}

/// A not-found page as a response. It goes out under the status `OK`.
pub open spec fn not_found_as_response(page: PageView) -> ResponseView {
    ResponseView { status_line: HttpStatus::OK, page }
}

/// An error page as a response. It goes out under the status `OK`.
pub open spec fn error_as_response(e: ErrorPageView) -> ResponseView {
    ResponseView { status_line: HttpStatus::OK, page: error_page_as_page(e) }
}

impl From<NotFoundResponse> for Response {
    fn from(value: NotFoundResponse) -> (r: Self)
        ensures
            r@ == not_found_as_response(value@),
    {
        Self { status_line: HttpStatus::OK, page: value.page }
    }
}

impl FromSpecImpl<NotFoundResponse> for Response {
    open spec fn obeys_from_spec() -> bool {
        false
    }

    open spec fn from_spec(value: NotFoundResponse) -> Self {
        arbitrary()
    }
}

impl From<ErrorResponse> for Response {
    fn from(value: ErrorResponse) -> (r: Self)
        ensures
            r@ == error_as_response(value@),
    {
        Self { status_line: HttpStatus::OK, page: Page::from(value.page) }
    }
}

impl FromSpecImpl<ErrorResponse> for Response {
    open spec fn obeys_from_spec() -> bool {
        false
    }

    open spec fn from_spec(value: ErrorResponse) -> Self {
        arbitrary()
    }
}

/// The request methods that the server answers.
#[derive(PartialEq, Eq, Debug, Clone, Copy, Structural)]
pub enum RequestType {
    GET,
}

/// A method token that names no supported method.
pub struct InvalidRequestType;

/// The name for what `str::to_uppercase` returns on a string with the
/// characters `s`.
pub uninterp spec fn uppercase_of(s: Seq<char>) -> Seq<char>;

/// Trusted: `str::to_uppercase`. The result depends on the characters of `s`
/// alone.
#[verifier::external_body]
fn uppercase(s: &str) -> (upper: String)
    ensures
        upper@ == uppercase_of(s@),
{
    s.to_uppercase()
}

/// Whether an upper-cased method token names `GET`.
pub open spec fn is_get(upper: Seq<char>) -> bool {
    upper == "GET"@
}

impl RequestType {
    /// The method that an upper-cased token names.
    pub fn from_uppercase(upper: &str) -> (r: Result<Self, InvalidRequestType>)
        ensures
            r is Ok <==> is_get(upper@),
    {
        let given: Vec<char> = chars_of(upper);
        let wanted: Vec<char> = chars_of("GET");
        if same_chars(&given, &wanted) {
            Ok(Self::GET)
        } else {
            Err(InvalidRequestType)
        }
    }

    /// The method that a token names, whatever its case.
    pub fn parse(s: &str) -> (r: Result<Self, InvalidRequestType>)
        ensures
            r is Ok <==> is_get(uppercase_of(s@)),
    {
        let upper: String = uppercase(s);
        Self::from_uppercase(upper.as_str())
    }
}

impl std::str::FromStr for RequestType {
    type Err = InvalidRequestType;

    fn from_str(s: &str) -> (r: Result<Self, Self::Err>)
        ensures
            r is Ok <==> is_get(uppercase_of(s@)),
    {
        Self::parse(s)
    }
}

/// Compares the part of `route` before its second `/` with `prefix`, and
/// hands back the rest of `route` where they are equal.
pub fn matches_prefix<'a>(route: &'a str, prefix: &'a str) -> (rest: Option<&'a str>)
    ensures
        match prefix_match(route@, prefix@) {
            Some(r) => rest matches Some(x) && x@ == r,
            None => rest is None,
        },
{
    let path: Vec<char> = chars_of(route);
    let h: usize = head_end(&path);
    let head: Vec<char> = slice_of(&path, 0, h);
    let wanted: Vec<char> = chars_of(prefix);
    if same_chars(&head, &wanted) {
        Some(route.substring_char(h, path.len()))
    } else {
        None
    }
}

/// What a route is, as plain values and its handler.
pub struct RouteView<H> {
    pub request_type: RequestType,
    pub prefixes: Seq<Seq<char>>,
    pub handler: H,
}

/// A method, the path prefixes it is registered under, and the handler that
/// answers them.
pub struct Route<H: Copy + Fn(Vec<String>) -> QueryParseResult> {
    request_type: RequestType,
    prefixes: Vec<String>,
    query_handler: H,
}

impl<H: Copy + Fn(Vec<String>) -> QueryParseResult> View for Route<H> {
    type V = RouteView<H>;

    closed spec fn view(&self) -> RouteView<H> {
        RouteView {
            request_type: self.request_type,
            prefixes: views(self.prefixes@),
            handler: self.query_handler,
        }
    }
}

/// Whether `handler` may be called with every argument list.
pub open spec fn accepts_all_args<H: Fn(Vec<String>) -> QueryParseResult>(handler: H) -> bool {
    forall|args: Vec<String>| call_requires(handler, (args,))
}

impl<H: Copy + Fn(Vec<String>) -> QueryParseResult> Route<H> {
    #[verifier::type_invariant]
    closed spec fn handler_is_total(&self) -> bool {
        accepts_all_args(self.query_handler)
    }

    /// The route that answers requests of `request_type` under each of
    /// `prefixes` with `query_handler`, which must take every argument list.
    pub fn new(request_type: RequestType, prefixes: Vec<String>, query_handler: H) -> (route: Self)
        requires
            accepts_all_args(query_handler),
        ensures
            route@ == (RouteView {
                request_type,
                prefixes: views(prefixes@),
                handler: query_handler,
            }),
    {
        Self { request_type, prefixes, query_handler }
    }

    /// Calls the route's handler.
    pub fn handle(&self, args: Vec<String>) -> (result: QueryParseResult)
        ensures
            call_ensures(self@.handler, (args,), result),
    {
        proof {
            use_type_invariant(self);
        }
        (self.query_handler)(args)
    }
}

impl<H: Copy + Fn(Vec<String>) -> QueryParseResult> Clone for Route<H> {
    fn clone(&self) -> (copy: Self)
        ensures
            copy@ == self@,
    {
        proof {
            use_type_invariant(self);
        }
        let mut prefixes: Vec<String> = Vec::new();
        let mut i: usize = 0;
        while i < self.prefixes.len()
            invariant
                i <= self.prefixes.len(),
                prefixes.len() == i,
                forall|j: int| 0 <= j < i ==> prefixes@[j]@ == self.prefixes@[j]@,
            decreases self.prefixes.len() - i,
        {
            prefixes.push(self.prefixes[i].clone());
            i += 1;
        }
        proof {
            assert(views(prefixes@) =~= views(self.prefixes@));
        }
        Route { request_type: self.request_type, prefixes, query_handler: self.query_handler }
    }
}

/// Supplies the page for requests that no route answers.
pub struct NotFoundHandler<N: Copy + Fn() -> NotFoundResponse>(N);

impl<N: Copy + Fn() -> NotFoundResponse> NotFoundHandler<N> {
    #[verifier::type_invariant]
    closed spec fn handler_is_total(&self) -> bool {
        call_requires(self.0, ())
    }

    /// The function that supplies the page.
    pub closed spec fn handler(&self) -> N {
        self.0
    }

    /// Wraps `f`, which must be callable.
    pub fn new(f: N) -> (handler: Self)
        requires
            call_requires(f, ()),
        ensures
            handler.handler() == f,
    {
        Self(f)
    }

    /// Asks for the not-found page.
    pub fn not_found(&self) -> (page: NotFoundResponse)
        ensures
            call_ensures(self.handler(), (), page),
    {
        proof {
            use_type_invariant(self);
        }
        (self.0)()
    }
}

impl<N: Copy + Fn() -> NotFoundResponse> Clone for NotFoundHandler<N> {
    fn clone(&self) -> (copy: Self)
        ensures
            copy.handler() == self.handler(),
    {
        proof {
            use_type_invariant(self);
        }
        NotFoundHandler(self.0)
    }
}

/// Whether `handler` may be called with every error.
pub open spec fn accepts_all_errors<E: Fn(ConnectionHandlingError) -> ErrorResponse>(
    handler: E,
) -> bool {
    forall|error: ConnectionHandlingError| call_requires(handler, (error,))
}

/// Turns the error of a failed connection into the page that reports it.
pub struct ErrorHandler<E: Copy + Fn(ConnectionHandlingError) -> ErrorResponse>(E);

impl<E: Copy + Fn(ConnectionHandlingError) -> ErrorResponse> ErrorHandler<E> {
    #[verifier::type_invariant]
    closed spec fn handler_is_total(&self) -> bool {
        accepts_all_errors(self.0)
    }

    /// The function that makes the page.
    pub closed spec fn handler(&self) -> E {
        self.0
    }

    /// Wraps `f`, which must take every error.
    pub fn new(f: E) -> (handler: Self)
        requires
            accepts_all_errors(f),
        ensures
            handler.handler() == f,
    {
        Self(f)
    }

    /// The function itself.
    pub fn function(&self) -> (f: E)
        ensures
            f == self.handler(),
            accepts_all_errors(f),
    {
        proof {
            use_type_invariant(self);
        }
        self.0
    }

    /// Asks for the page that reports `error`.
    pub fn report(&self, error: ConnectionHandlingError) -> (page: ErrorResponse)
        ensures
            call_ensures(self.handler(), (error,), page),
    {
        proof {
            use_type_invariant(self);
        }
        (self.0)(error)
    }
}

impl<E: Copy + Fn(ConnectionHandlingError) -> ErrorResponse> Clone for ErrorHandler<E> {
    fn clone(&self) -> (copy: Self)
        ensures
            copy.handler() == self.handler(),
    {
        proof {
            use_type_invariant(self);
        }
        ErrorHandler(self.0)
    }
}

/// What a server is: its routes in registration order, and its two handlers.
pub struct ServerView<H, N, E> {
    pub routes: Seq<RouteView<H>>,
    pub not_found: N,
    pub error: E,
}

/// Whether prefix `j` of route `i` answers a request of `request_type` for
/// `path`.
pub open spec fn answers<H>(
    routes: Seq<RouteView<H>>,
    i: int,
    j: int,
    request_type: RequestType,
    path: Seq<char>,
) -> bool {
    &&& 0 <= i < routes.len()
    &&& 0 <= j < routes[i].prefixes.len()
    &&& routes[i].request_type == request_type
    &&& routes[i].prefixes[j] == path_head(path)
}

/// Registration order: routes in the order they were added, and the prefixes
/// of one route in the order they were given.
pub open spec fn comes_before(i1: int, j1: int, i2: int, j2: int) -> bool {
    i1 < i2 || (i1 == i2 && j1 < j2)
}

/// Whether prefix `j` of route `i` is the first, in registration order, that
/// answers the request.
pub open spec fn chosen<H>(
    routes: Seq<RouteView<H>>,
    i: int,
    j: int,
    request_type: RequestType,
    path: Seq<char>,
) -> bool {
    &&& answers(routes, i, j, request_type, path)
    &&& forall|i2: int, j2: int|
        comes_before(i2, j2, i, j) ==> !answers(routes, i2, j2, request_type, path)
}

/// Whether no route answers the request.
pub open spec fn unanswered<H>(
    routes: Seq<RouteView<H>>,
    request_type: RequestType,
    path: Seq<char>,
) -> bool {
    forall|i: int, j: int| !answers(routes, i, j, request_type, path)
}

/// A request has at most one chosen route and prefix: the table decides the
/// same way every time.
pub proof fn lemma_chosen_is_unique<H>(
    routes: Seq<RouteView<H>>,
    request_type: RequestType,
    path: Seq<char>,
    i1: int,
    j1: int,
    i2: int,
    j2: int,
)
    requires
        chosen(routes, i1, j1, request_type, path),
        chosen(routes, i2, j2, request_type, path),
    ensures
        i1 == i2,
        j1 == j2,
{
    if comes_before(i1, j1, i2, j2) {
        assert(!answers(routes, i1, j1, request_type, path));
    }
    if comes_before(i2, j2, i1, j1) {
        assert(!answers(routes, i2, j2, request_type, path));
    }
}

/// Where some route answers a request, the chosen one is registered no later
/// than any route that answers it.
pub proof fn lemma_first_registered_wins<H>(
    routes: Seq<RouteView<H>>,
    request_type: RequestType,
    path: Seq<char>,
    i: int,
    j: int,
    i2: int,
    j2: int,
)
    requires
        chosen(routes, i, j, request_type, path),
        answers(routes, i2, j2, request_type, path),
    ensures
        i <= i2,
        i == i2 ==> j <= j2,
{
    if comes_before(i2, j2, i, j) {
        assert(!answers(routes, i2, j2, request_type, path));
    }
}

/// The route and prefix that answer a request, and what is left of the path.
pub struct RouteMatch {
    /// Index of the route, in registration order.
    pub route: usize,
    /// Index of the prefix among those of the route.
    pub prefix: usize,
    /// The path from its second `/` on.
    pub remainder: String,
}

/// How a request is to be answered.
pub enum Resolution {
    /// With the response that the dispatch loop supplied.
    Override(Response),
    /// By the handler of the route with this index, called with `args`.
    Routed { route: usize, args: Vec<String> },
    /// With the not-found page.
    Unmatched,
}

/// What the connection handler returns for the result of a route's handler:
/// the response, or the handler's message as a `RouteParseError`.
pub open spec fn handler_outcome(result: QueryParseResult) -> Result<
    Response,
    ConnectionHandlingError,
> {
    match result {
        Ok(response) => Ok(response),
        Err(message) => Err(ConnectionHandlingError::RouteParseError(message)),
    }
}

/// Turns the result of a route's handler into the connection handler's.
pub fn route_outcome(result: QueryParseResult) -> (r: Result<Response, ConnectionHandlingError>)
    ensures
        r == handler_outcome(result),
{
    match result {
        Ok(response) => Ok(response),
        Err(message) => Err(ConnectionHandlingError::RouteParseError(message)),
    }
}

/// A request server: routes in registration order, the handler for requests
/// that no route answers, and the handler that reports failed connections.
pub struct HttpServer<
    H: Copy + Fn(Vec<String>) -> QueryParseResult,
    N: Copy + Fn() -> NotFoundResponse,
    E: Copy + Fn(ConnectionHandlingError) -> ErrorResponse,
> {
    routes: Vec<Route<H>>,
    not_found_handler: NotFoundHandler<N>,
    error_handler: ErrorHandler<E>,
}

impl<
    H: Copy + Fn(Vec<String>) -> QueryParseResult,
    N: Copy + Fn() -> NotFoundResponse,
    E: Copy + Fn(ConnectionHandlingError) -> ErrorResponse,
> View for HttpServer<H, N, E> {
    type V = ServerView<H, N, E>;

    closed spec fn view(&self) -> ServerView<H, N, E> {
        ServerView {
            routes: Seq::new(self.routes@.len(), |i: int| self.routes@[i]@),
            not_found: self.not_found_handler.handler(),
            error: self.error_handler.handler(),
        }
    }
}

impl<
    H: Copy + Fn(Vec<String>) -> QueryParseResult,
    N: Copy + Fn() -> NotFoundResponse,
    E: Copy + Fn(ConnectionHandlingError) -> ErrorResponse,
> HttpServer<H, N, E> {
    /// Whether `r` is what the server returns for `line` and the override
    /// `overriding`. A malformed line fails before anything else is looked
    /// at; an override is returned as it is; else the chosen route's handler
    /// is called with the arguments of the path and decides; and where no
    /// route answers, the not-found handler supplies the page.
    pub open spec fn responds(
        &self,
        line: Seq<char>,
        overriding: Option<Response>,
        r: Result<Response, ConnectionHandlingError>,
    ) -> bool {
        match parse_request(line) {
            Err(message) => r matches Err(ConnectionHandlingError::MalformedRequest(m)) && m@
                == message,
            Ok((request_type, path)) => match overriding {
                Some(response) => r == Ok::<Response, ConnectionHandlingError>(response),
                None => if unanswered(self@.routes, request_type, path) {
                    exists|page: NotFoundResponse| #[trigger]
                        call_ensures(self@.not_found, (), page) && (r matches Ok(response)
                            && response@ == not_found_as_response(page@))
                } else {
                    exists|i: int, j: int, args: Vec<String>, result: QueryParseResult|
                        #![trigger chosen(self@.routes, i, j, request_type, path), call_ensures(self@.routes[i].handler, (args,), result)]
                        chosen(self@.routes, i, j, request_type, path) && views(args@)
                            == route_args(path_rest(path)) && call_ensures(
                            self@.routes[i].handler,
                            (args,),
                            result,
                        ) && r == handler_outcome(result)
                },
            },
        }
    }

    /// A server without routes.
    #[must_use]
    pub fn new(not_found_handler: NotFoundHandler<N>, error_handler: ErrorHandler<E>) -> (server:
        Self)
        ensures
            server@ == (ServerView {
                routes: Seq::<RouteView<H>>::empty(),
                not_found: not_found_handler.handler(),
                error: error_handler.handler(),
            }),
    {
        let server = Self { routes: Vec::new(), not_found_handler, error_handler };
        proof {
            assert(server@.routes =~= Seq::<RouteView<H>>::empty());
        }
        server
    }

    /// Registers a copy of `route` behind the routes that are there.
    pub fn add_route(&mut self, route: &Route<H>)
        ensures
            final(self)@ == (ServerView {
                routes: old(self)@.routes.push(route@),
                not_found: old(self)@.not_found,
                error: old(self)@.error,
            }),
    {
        let ghost before = self@.routes;
        self.routes.push(route.clone());
        proof {
            assert(self@.routes =~= before.push(route@));
        }
    }

    /// The number of registered routes.
    pub fn route_count(&self) -> (n: usize)
        ensures
            n == self@.routes.len(),
    {
        self.routes.len()
    }

    /// The route that was registered as number `index`, counting from 0.
    pub fn route(&self, index: usize) -> (route: &Route<H>)
        requires
            index < self@.routes.len(),
        ensures
            route@ == self@.routes[index as int],
    {
        &self.routes[index]
    }

    /// The handler that reports failed connections.
    pub fn error_handler(&self) -> (handler: E)
        ensures
            handler == self@.error,
            accepts_all_errors(handler),
    {
        self.error_handler.function()
    }

    /// Looks for the first registered route and prefix that answer the
    /// request.
    pub fn match_route(&self, request_type: RequestType, path: &str) -> (found: Option<RouteMatch>)
        ensures
            match found {
                Some(m) => chosen(self@.routes, m.route as int, m.prefix as int, request_type, path@)
                    && m.remainder@ == path_rest(path@),
                None => unanswered(self@.routes, request_type, path@),
            },
    {
        let chars: Vec<char> = chars_of(path);
        let h: usize = head_end(&chars);
        let head: Vec<char> = slice_of(&chars, 0, h);
        let mut i: usize = 0;
        while i < self.routes.len()
            invariant
                i <= self.routes.len(),
                h == head_len(path@),
                h <= chars.len(),
                chars@ == path@,
                head@ == path_head(path@),
                forall|i2: int, j2: int|
                    0 <= i2 < i ==> !answers(self@.routes, i2, j2, request_type, path@),
            decreases self.routes.len() - i,
        {
            let route: &Route<H> = &self.routes[i];
            if route.request_type == request_type {
                let mut j: usize = 0;
                while j < route.prefixes.len()
                    invariant
                        i < self.routes.len(),
                        route == self.routes[i as int],
                        route.request_type == request_type,
                        j <= route.prefixes.len(),
                        h == head_len(path@),
                        h <= chars.len(),
                        chars@ == path@,
                        head@ == path_head(path@),
                        forall|i2: int, j2: int|
                            0 <= i2 < i ==> !answers(self@.routes, i2, j2, request_type, path@),
                        forall|j2: int|
                            0 <= j2 < j ==> !answers(
                                self@.routes,
                                i as int,
                                j2,
                                request_type,
                                path@,
                            ),
                    decreases route.prefixes.len() - j,
                {
                    let candidate: Vec<char> = chars_of(route.prefixes[j].as_str());
                    if same_chars(&head, &candidate) {
                        let rest: Vec<char> = slice_of(&chars, h, chars.len());
                        let remainder: String = string_from_chars(&rest);
                        proof {
                            assert(self@.routes[i as int].prefixes[j as int] == candidate@);
                            assert(rest@ =~= path_rest(path@));
                        }
                        return Some(RouteMatch { route: i, prefix: j, remainder });
                    }
                    proof {
                        assert(self@.routes[i as int].prefixes[j as int] == candidate@);
                    }
                    j += 1;
                }
            }
            i += 1;
        }
        None
    }

    /// Decides how a parsed request is answered.
    pub fn resolve(&self, request_type: RequestType, path: &str, overriding: Option<Response>) -> (res:
        Resolution)
        ensures
            match overriding {
                Some(response) => res == Resolution::Override(response),
                None => match res {
                    Resolution::Override(_) => false,
                    Resolution::Routed { route, args } => views(args@) == route_args(
                        path_rest(path@),
                    ) && exists|j: int| #[trigger]
                        chosen(self@.routes, route as int, j, request_type, path@),
                    Resolution::Unmatched => unanswered(self@.routes, request_type, path@),
                },
            },
    {
        match overriding {
            Some(response) => Resolution::Override(response),
            None => match self.match_route(request_type, path) {
                Some(m) => {
                    let rest: Vec<char> = chars_of(m.remainder.as_str());
                    let mut args: Vec<String> = split_chars(&rest, '/');
                    let ghost pieces = views(args@);
                    args.remove(0);
                    let res = Resolution::Routed { route: m.route, args };
                    proof {
                        assert(views(res->args@) =~= pieces.skip(1));
                        assert(chosen(
                            self@.routes,
                            res->route as int,
                            m.prefix as int,
                            request_type,
                            path@,
                        ));
                    }
                    res
                },
                None => Resolution::Unmatched,
            },
        }
    }

    /// Answers a request line: parses it, decides how it is answered, and
    /// calls the handler that the decision names.
    pub fn respond(&self, request_line: &str, overriding: Option<Response>) -> (r: Result<
        Response,
        ConnectionHandlingError,
    >)
        ensures
            self.responds(request_line@, overriding, r),
    {
        let parsed = parse_request_line(request_line);
        let (request_type, path) = match parsed {
            Ok(pair) => pair,
            Err(e) => {
                return Err(e);
            },
        };
        match self.resolve(request_type, path.as_str(), overriding) {
            Resolution::Override(response) => Ok(response),
            Resolution::Routed { route, args } => {
                let ghost j = choose|j: int| #[trigger]
                    chosen(self@.routes, route as int, j, request_type, path@);
                proof {
                    assert(answers(self@.routes, route as int, j, request_type, path@));
                }
                let result: QueryParseResult = self.routes[route].handle(args);
                let r = route_outcome(result);
                proof {
                    assert(chosen(self@.routes, route as int, j, request_type, path@)
                        && call_ensures(self@.routes[route as int].handler, (args,), result));
                }
                r
            },
            Resolution::Unmatched => {
                let page: NotFoundResponse = self.not_found_handler.not_found();
                let response = Response::from(page);
                proof {
                    assert(call_ensures(self@.not_found, (), page));
                }
                Ok(response)
            },
        }
    }

    /// Answers the lines read from a connection, of which the first is the
    /// request line. Without a line the request is malformed.
    pub fn answer(&self, lines: &Vec<String>, overriding: Option<Response>) -> (r: Result<
        Response,
        ConnectionHandlingError,
    >)
        ensures
            lines.len() > 0 ==> self.responds(lines[0]@, overriding, r),
            lines.len() == 0 ==> (r matches Err(ConnectionHandlingError::MalformedRequest(m))
                && m@ == crate::request::empty_stream_message()),
    {
        match crate::request::request_line(lines) {
            Ok(line) => self.respond(line.as_str(), overriding),
            Err(e) => Err(e),
        }
    }
}

impl<
    H: Copy + Fn(Vec<String>) -> QueryParseResult,
    N: Copy + Fn() -> NotFoundResponse,
    E: Copy + Fn(ConnectionHandlingError) -> ErrorResponse,
> Clone for HttpServer<H, N, E> {
    fn clone(&self) -> (copy: Self)
        ensures
            copy@ == self@,
    {
        let mut routes: Vec<Route<H>> = Vec::new();
        let mut i: usize = 0;
        while i < self.routes.len()
            invariant
                i <= self.routes.len(),
                routes.len() == i,
                forall|k: int| 0 <= k < i ==> routes@[k]@ == self.routes@[k]@,
            decreases self.routes.len() - i,
        {
            routes.push(self.routes[i].clone());
            i += 1;
        }
        let copy = HttpServer {
            routes,
            not_found_handler: self.not_found_handler.clone(),
            error_handler: self.error_handler.clone(),
        };
        proof {
            assert(copy@.routes =~= self@.routes);
        }
        copy
    }
}

/// The last element of `v` and the one before it, where they exist.
pub fn last_two<T>(v: &Vec<T>) -> (pair: (Option<&T>, Option<&T>))
    ensures
        pair.0 == (if v.len() >= 1 {
            Some(&v[v.len() - 1])
        } else {
            None
        }),
        pair.1 == (if v.len() >= 2 {
            Some(&v[v.len() - 2])
        } else {
            None
        }),
{
    let len: usize = v.len();
    let a = if len >= 1 {
        Some(&v[len - 1])
    } else {
        None
    };
    let b = if len >= 2 {
        Some(&v[len - 2])
    } else {
        None
    };
    (a, b)
}

} // verus!

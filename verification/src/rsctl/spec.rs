//! Stable API spec IR (domain-first), the input of the generators.
use vstd::prelude::*;

verus! {

/// A generated package.
#[derive(Debug, Clone)]
pub struct Package {
    pub name: String,
}

/// A whole API description.
#[derive(Debug)]
pub struct Spec {
    pub services: Vec<Service>,
    /// Routes outside any `service {}` block.
    pub routes: Vec<Route>,
    /// Declared request/response types.
    pub types: Vec<TypeDef>,
}

#[derive(Debug)]
pub struct Service {
    pub name: String,
    pub annotations: Vec<Annotation>,
    pub routes: Vec<Route>,
}

#[derive(Debug)]
pub struct Route {
    pub annotations: Vec<Annotation>,
    pub method: HttpMethod,
    pub path: String,
    pub request: Option<String>,
    pub response: Option<String>,
}

#[derive(Debug, Clone, Copy, PartialEq, Eq, Structural)]
pub enum HttpMethod {
    Get,
    Post,
    Put,
    Delete,
    Patch,
}

#[derive(Debug)]
pub struct Annotation {
    pub name: String,
    pub args: AnnotationArgs,
}

#[derive(Debug)]
pub enum AnnotationArgs {
    /// No argument (`@server()` or `@server`).
    NoArgs,
    /// A single value (`@handler login`, `@doc "text"`).
    Str(String),
    /// `key: value` pairs, in order (`@server(prefix: /v1 group: user)`).
    KeyValues(Vec<(String, String)>),
}

/// A declared struct type.
#[derive(Debug)]
pub struct TypeDef {
    pub name: String,
    pub fields: Vec<Field>,
}

/// A field of a declared type, with its optional struct tag (`json:"x"`).
#[derive(Debug)]
pub struct Field {
    pub name: String,
    pub ty: String,
    pub tag: Option<String>,
}


// ---------------------------------------------------------------------------
// Views
// ---------------------------------------------------------------------------

pub ghost enum ArgsV {
    NoArgs,
    Str(Seq<char>),
    KeyValues(Seq<(Seq<char>, Seq<char>)>),
}

pub ghost struct AnnotationV {
    pub name: Seq<char>,
    pub args: ArgsV,
}

pub ghost struct RouteV {
    pub annotations: Seq<AnnotationV>,
    pub method: HttpMethod,
    pub path: Seq<char>,
    pub request: Option<Seq<char>>,
    pub response: Option<Seq<char>>,
}

pub ghost struct ServiceV {
    pub name: Seq<char>,
    pub annotations: Seq<AnnotationV>,
    pub routes: Seq<RouteV>,
}

pub open spec fn opt_view(o: Option<String>) -> Option<Seq<char>> {
    match o {
        Some(s) => Some(s@),
        None => None,
    }
}

pub open spec fn pairs_view(v: Seq<(String, String)>) -> Seq<(Seq<char>, Seq<char>)> {
    v.map_values(|p: (String, String)| (p.0@, p.1@))
}

impl View for AnnotationArgs {
    type V = ArgsV;

    open spec fn view(&self) -> ArgsV {
        match self {
            AnnotationArgs::NoArgs => ArgsV::NoArgs,
            AnnotationArgs::Str(s) => ArgsV::Str(s@),
            AnnotationArgs::KeyValues(v) => ArgsV::KeyValues(pairs_view(v@)),
        }
    }
}

impl View for Annotation {
    type V = AnnotationV;

    open spec fn view(&self) -> AnnotationV {
        AnnotationV { name: self.name@, args: self.args@ }
    }
}

pub open spec fn anns_view(v: Seq<Annotation>) -> Seq<AnnotationV> {
    v.map_values(|a: Annotation| a@)
}

impl View for Route {
    type V = RouteV;

    open spec fn view(&self) -> RouteV {
        RouteV {
            annotations: anns_view(self.annotations@),
            method: self.method,
            path: self.path@,
            request: opt_view(self.request),
            response: opt_view(self.response),
        }
    }
}

pub open spec fn routes_view(v: Seq<Route>) -> Seq<RouteV> {
    v.map_values(|r: Route| r@)
}

impl View for Service {
    type V = ServiceV;

    open spec fn view(&self) -> ServiceV {
        ServiceV {
            name: self.name@,
            annotations: anns_view(self.annotations@),
            routes: routes_view(self.routes@),
        }
    }
}

pub open spec fn services_view(v: Seq<Service>) -> Seq<ServiceV> {
    v.map_values(|s: Service| s@)
}

pub ghost struct FieldV {
    pub name: Seq<char>,
    pub ty: Seq<char>,
    pub tag: Option<Seq<char>>,
}

pub ghost struct TypeDefV {
    pub name: Seq<char>,
    pub fields: Seq<FieldV>,
}

impl View for Field {
    type V = FieldV;

    open spec fn view(&self) -> FieldV {
        FieldV { name: self.name@, ty: self.ty@, tag: opt_view(self.tag) }
    }
}

pub open spec fn fields_view(v: Seq<Field>) -> Seq<FieldV> {
    v.map_values(|f: Field| f@)
}

impl View for TypeDef {
    type V = TypeDefV;

    open spec fn view(&self) -> TypeDefV {
        TypeDefV { name: self.name@, fields: fields_view(self.fields@) }
    }
}

pub open spec fn types_view(v: Seq<TypeDef>) -> Seq<TypeDefV> {
    v.map_values(|t: TypeDef| t@)
}

} // verus!

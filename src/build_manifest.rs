use vstd::prelude::*;
use crate::error::ReleaseError;
use crate::text::str_equal;

verus! {

/// One entry of a YAML mapping: the key and the value, each as its string
/// where it is a string.
pub struct YamlEntry {
    pub key: Option<String>,
    pub value: Option<String>,
}

pub open spec fn opt_str_view(o: Option<String>) -> Option<Seq<char>> {
    match o {
        Some(s) => Some(s@),
        None => None,
    }
}

pub open spec fn entry_view(e: YamlEntry) -> (Option<Seq<char>>, Option<Seq<char>>) {
    (opt_str_view(e.key), opt_str_view(e.value))
}

pub open spec fn entries_view(es: Seq<YamlEntry>) -> Seq<(Option<Seq<char>>, Option<Seq<char>>)> {
    es.map_values(|e: YamlEntry| entry_view(e))
}

/// A parsed YAML document as the build manifest reads it: `None` where the
/// text is not YAML, `Some(None)` where its top level is not a mapping, else
/// the entries of the mapping in document order.
pub open spec fn document_view(d: Option<Option<Vec<YamlEntry>>>) -> Option<
    Option<Seq<(Option<Seq<char>>, Option<Seq<char>>)>>,
> {
    match d {
        None => None,
        Some(None) => Some(None),
        Some(Some(es)) => Some(Some(entries_view(es@))),
    }
}

/// What `serde_yaml` reads from a text, as `document_view` shapes it.
pub uninterp spec fn yaml_document_of(text: Seq<char>) -> Option<
    Option<Seq<(Option<Seq<char>>, Option<Seq<char>>)>>,
>;

/// Relies on `serde_yaml::from_str` to parse the text into a `serde_yaml::Value`,
/// on the order in which a `serde_yaml::Mapping` hands out its entries (the
/// document's), and on `serde_yaml::Value::as_str` for the string of a key or
/// a value. The result depends on the text alone.
#[verifier::external_body]
fn read_yaml(text: &str) -> (r: Option<Option<Vec<YamlEntry>>>)
    ensures
        document_view(r) == yaml_document_of(text@),
{
    match serde_yaml::from_str::<serde_yaml::Value>(text) {
        Err(_) => None,
        Ok(serde_yaml::Value::Mapping(m)) => Some(Some(m.into_iter().map(|(k, v)| YamlEntry {
            key: k.as_str().map(String::from),
            value: v.as_str().map(String::from),
        }).collect())),
        Ok(_) => Some(None),
    }
}

/// A declared sub-product: the name of its source tree and the name of its
/// binary in the release, without the platform's suffix.
pub struct Product {
    pub name: String,
    pub output: String,
}

/// The ordered list of sub-products of a release. Names are unique.
pub struct BuildManifest {
    pub products: Vec<Product>,
}

pub open spec fn product_view(p: Product) -> (Seq<char>, Seq<char>) {
    (p.name@, p.output@)
}

impl View for BuildManifest {
    type V = Seq<(Seq<char>, Seq<char>)>;

    open spec fn view(&self) -> Seq<(Seq<char>, Seq<char>)> {
        self.products@.map_values(|p: Product| product_view(p))
    }
}

/// No two entries have the same name.
pub open spec fn names_unique(ps: Seq<(Seq<char>, Seq<char>)>) -> bool {
    forall|a: int, b: int| 0 <= a < b < ps.len() ==> ps[a].0 != ps[b].0
}

pub open spec fn all_strings(es: Seq<(Option<Seq<char>>, Option<Seq<char>>)>) -> bool {
    forall|k: int| 0 <= k < es.len() ==> (#[trigger] es[k]).0 is Some && es[k].1 is Some
}

pub open spec fn unwrap_entries(es: Seq<(Option<Seq<char>>, Option<Seq<char>>)>) -> Seq<
    (Seq<char>, Seq<char>),
> {
    es.map_values(|e: (Option<Seq<char>>, Option<Seq<char>>)| (e.0->Some_0, e.1->Some_0))
}

/// The manifest that a parsed document declares: none for a text that is not
/// YAML, or whose mapping holds a key or value that is not a string, or a
/// name twice; an empty one where the document is not a mapping.
pub open spec fn manifest_of(
    doc: Option<Option<Seq<(Option<Seq<char>>, Option<Seq<char>>)>>>,
) -> Option<Seq<(Seq<char>, Seq<char>)>> {
    match doc {
        None => None,
        Some(None) => Some(Seq::empty()),
        Some(Some(es)) => if all_strings(es) && names_unique(unwrap_entries(es)) {
            Some(unwrap_entries(es))
        } else {
            None
        },
    }
}

impl BuildManifest {
    pub open spec fn wf(&self) -> bool {
        names_unique(self@)
    }

    pub fn len(&self) -> (r: usize)
        ensures
            r == self@.len(),
    {
        self.products.len()
    }

    /// Builds the manifest from a parsed document.
    pub fn from_document(doc: Option<Option<Vec<YamlEntry>>>) -> (r: Result<
        BuildManifest,
        ReleaseError,
    >)
        ensures
            manifest_of(document_view(doc)) is Some ==> r is Ok && r->Ok_0@ == manifest_of(
                document_view(doc),
            )->Some_0,
            manifest_of(document_view(doc)) is None ==> r is Err && r->Err_0
                == ReleaseError::Configuration,
            r is Ok ==> r->Ok_0.wf(),
    {
        match doc {
            None => Err(ReleaseError::Configuration),
            Some(None) => {
                let m = BuildManifest { products: Vec::new() };
                assert(m@ =~= Seq::<(Seq<char>, Seq<char>)>::empty());
                Ok(m)
            },
            Some(Some(es)) => {
                let ghost ev = entries_view(es@);
                assert(document_view(doc) == Some(Some(ev)));
                let mut products: Vec<Product> = Vec::new();
                let mut i: usize = 0;
                while i < es.len()
                    invariant
                        i <= es@.len(),
                        products@.len() == i,
                        ev == entries_view(es@),
                        document_view(doc) == Some(Some(ev)),
                        forall|k: int| 0 <= k < i ==> (#[trigger] ev[k]).0 is Some && ev[k].1 is Some,
                        products@.map_values(|p: Product| product_view(p)) =~= unwrap_entries(
                            ev.take(i as int),
                        ),
                        names_unique(products@.map_values(|p: Product| product_view(p))),
                    decreases es@.len() - i,
                {
                    let e = &es[i];
                    assert(ev[i as int] == entry_view(es@[i as int]));
                    let (name, output) = match (&e.key, &e.value) {
                        (Some(k), Some(v)) => (k, v),
                        _ => {
                            assert(!all_strings(ev));
                            return Err(ReleaseError::Configuration);
                        },
                    };
                    let ghost pv = products@.map_values(|p: Product| product_view(p));
                    assert(ev[i as int] == (Some(name@), Some(output@)));
                    let mut j: usize = 0;
                    while j < products.len()
                        invariant
                            j <= products@.len(),
                            products@.len() == i,
                            i < es@.len(),
                            ev == entries_view(es@),
                            document_view(doc) == Some(Some(ev)),
                        document_view(doc) == Some(Some(ev)),
                            ev[i as int] == (Some(name@), Some(output@)),
                            pv =~= unwrap_entries(ev.take(i as int)),
                            pv == products@.map_values(|p: Product| product_view(p)),
                            forall|k: int| 0 <= k < j ==> pv[k].0 != name@,
                        decreases products@.len() - j,
                    {
                        if str_equal(products[j].name.as_str(), name.as_str()) {
                            proof {
                                assert(pv[j as int].0 == name@);
                                if all_strings(ev) {
                                    let u = unwrap_entries(ev);
                                    assert(ev.take(i as int)[j as int] == ev[j as int]);
                                    assert(u[j as int] == pv[j as int]);
                                    assert(u[i as int].0 == name@);
                                    assert(!names_unique(u));
                                }
                            }
                            return Err(ReleaseError::Configuration);
                        }
                        j = j + 1;
                    }
                    products.push(Product { name: name.clone(), output: output.clone() });
                    proof {
                        let nv = products@.map_values(|p: Product| product_view(p));
                        assert(nv =~= pv.push((name@, output@)));
                        assert forall|a: int, b: int| 0 <= a < b < nv.len() implies nv[a].0 != nv[b].0 by {
                            if b < pv.len() {
                                assert(nv[a] == pv[a] && nv[b] == pv[b]);
                            } else {
                                assert(nv[a] == pv[a]);
                            }
                        }
                        assert(ev.take(i as int + 1) =~= ev.take(i as int).push(ev[i as int]));
                        assert(unwrap_entries(ev.take(i as int + 1)) =~= unwrap_entries(ev.take(i as int)).push(
                            (name@, output@),
                        ));
                    }
                    i = i + 1;
                }
                assert(ev.take(i as int) =~= ev);
                let m = BuildManifest { products };
                Ok(m)
            },
        }
    }

    /// Parses the text of a build manifest file.
    pub fn parse(text: &str) -> (r: Result<BuildManifest, ReleaseError>)
        ensures
            manifest_of(yaml_document_of(text@)) is Some ==> r is Ok && r->Ok_0@ == manifest_of(
                yaml_document_of(text@),
            )->Some_0,
            manifest_of(yaml_document_of(text@)) is None ==> r is Err && r->Err_0
                == ReleaseError::Configuration,
            r is Ok ==> r->Ok_0.wf(),
    {
        BuildManifest::from_document(read_yaml(text))
    }
}

} // verus!

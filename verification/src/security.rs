//! Building a security scheme from its declared attributes, or from a
//! parent scheme with scopes of its own.

use vstd::prelude::*;
use crate::schema::{
    assoc_insert, assoc_inserted, clone_opt_string, find_key_v, insert_key_v,
    lemma_find_key_correspond, opt_str_v,
};
use crate::operation::SecurityScheme;

verus! {

/// Where a security scheme comes from: declared in place, or derived from
/// a parent scheme by attaching scopes.
#[derive(Debug)]
pub enum SecuritySource {
    /// A scheme declared by its own attributes.
    Declared {
        type_: String,
        alias: Option<String>,
        description: Option<String>,
        name: Option<String>,
        in_: Option<String>,
        flow: Option<String>,
        auth_url: Option<String>,
        token_url: Option<String>,
    },
    /// A child of a parent scheme: the parent's scheme with these scopes
    /// glued on.
    Child {
        parent_name: Option<String>,
        parent_scheme: Option<SecurityScheme>,
        scopes: Vec<String>,
    },
}

/// View of a scope list as a scope mapping: each scope maps to itself,
/// and an equal scope given twice collapses to one entry.
pub open spec fn scopes_map_v(ss: Seq<String>) -> Seq<(Seq<char>, Seq<char>)>
    decreases ss,
{
    if ss.len() == 0 {
        Seq::empty()
    } else {
        insert_key_v(scopes_map_v(ss.drop_last()), ss.last()@, ss.last()@)
    }
}

/// View of a scope mapping.
pub open spec fn scope_pairs_v(ps: Seq<(String, String)>) -> Seq<(Seq<char>, Seq<char>)> {
    ps.map_values(|p: (String, String)| (p.0@, p.1@))
}

/// Inserting into a scope mapping and then viewing it is viewing it and
/// then inserting the viewed pair.
proof fn lemma_scope_pairs_v_insert(ps: Seq<(String, String)>, k: String, v: String)
    ensures
        scope_pairs_v(assoc_inserted(ps, k, v)) == insert_key_v(scope_pairs_v(ps), k@, v@),
{
    assert(scope_pairs_v(ps).len() == ps.len());
    assert(forall|i: int|
        0 <= i < ps.len() ==> scope_pairs_v(ps)[i] == (#[trigger] ps[i].0@, ps[i].1@));
    lemma_find_key_correspond(ps, scope_pairs_v(ps), k@);
    let i = crate::schema::find_assoc(ps, k@);
    if i < 0 {
        assert(scope_pairs_v(ps.push((k, v))) =~= scope_pairs_v(ps).push((k@, v@)));
    } else {
        crate::schema::lemma_find_assoc(ps, k@);
        assert(scope_pairs_v(ps.update(i, (k, v))) =~= scope_pairs_v(ps).update(i, (k@, v@)));
    }
}

/// Builds the scope mapping of a child scheme: each scope maps to itself.
fn scopes_map(ss: &Vec<String>) -> (r: Vec<(String, String)>)
    ensures
        scope_pairs_v(r@) == scopes_map_v(ss@),
{
    let mut r: Vec<(String, String)> = Vec::new();
    let mut i: usize = 0;
    while i < ss.len()
        invariant
            i <= ss@.len(),
            scope_pairs_v(r@) == scopes_map_v(ss@.subrange(0, i as int)),
        decreases ss.len() - i,
    {
        proof {
            assert(ss@.subrange(0, i + 1).drop_last() =~= ss@.subrange(0, i as int));
            assert(ss@.subrange(0, i + 1).last() == ss@[i as int]);
        }
        let k = ss[i].clone();
        let v = ss[i].clone();
        let ghost ps = r@;
        let ghost gk = k;
        let ghost gv = v;
        assoc_insert(&mut r, k, v);
        proof {
            lemma_scope_pairs_v_insert(ps, gk, gv);
        }
        i += 1;
    }
    proof {
        assert(ss@.subrange(0, ss@.len() as int) =~= ss@);
    }
    r
}

/// Builds the named security scheme the source declares.
///
/// A declared source yields a fresh scheme of its attributes with no
/// scopes, registered under its alias or, failing that, its type.  A
/// child source yields the parent's scheme with the scope mapping
/// replaced by its own scopes (each mapping to itself), registered under
/// the parent's name.  A child without a parent scheme is not accepted:
/// there is nothing to glue the scopes onto.
pub fn build_security_scheme(src: SecuritySource) -> (r: (Option<String>, SecurityScheme))
    requires
        src matches SecuritySource::Child { parent_scheme, .. } ==> parent_scheme is Some,
    ensures
        src matches SecuritySource::Declared {
            type_,
            alias,
            description,
            name,
            in_,
            flow,
            auth_url,
            token_url,
        } ==> {
            &&& opt_str_v(r.0) == Some(
                match alias {
                    Some(a) => a@,
                    None => type_@,
                },
            )
            &&& r.1.type_@ == type_@
            &&& opt_str_v(r.1.name) == opt_str_v(name)
            &&& opt_str_v(r.1.in_) == opt_str_v(in_)
            &&& opt_str_v(r.1.flow) == opt_str_v(flow)
            &&& opt_str_v(r.1.auth_url) == opt_str_v(auth_url)
            &&& opt_str_v(r.1.token_url) == opt_str_v(token_url)
            &&& opt_str_v(r.1.description) == opt_str_v(description)
            &&& r.1.scopes@.len() == 0
        },
        src matches SecuritySource::Child { parent_name, parent_scheme, scopes } ==> {
            &&& opt_str_v(r.0) == opt_str_v(parent_name)
            &&& r.1.type_@ == parent_scheme->0.type_@
            &&& opt_str_v(r.1.name) == opt_str_v(parent_scheme->0.name)
            &&& opt_str_v(r.1.in_) == opt_str_v(parent_scheme->0.in_)
            &&& opt_str_v(r.1.flow) == opt_str_v(parent_scheme->0.flow)
            &&& opt_str_v(r.1.auth_url) == opt_str_v(parent_scheme->0.auth_url)
            &&& opt_str_v(r.1.token_url) == opt_str_v(parent_scheme->0.token_url)
            &&& opt_str_v(r.1.description) == opt_str_v(parent_scheme->0.description)
            &&& scope_pairs_v(r.1.scopes@) == scopes_map_v(scopes@)
        },
{
    match src {
        SecuritySource::Declared {
            type_,
            alias,
            description,
            name,
            in_,
            flow,
            auth_url,
            token_url,
        } => {
            let def_name = match &alias {
                Some(a) => a.clone(),
                None => type_.clone(),
            };
            let scheme = SecurityScheme {
                type_,
                name,
                in_,
                flow,
                auth_url,
                token_url,
                scopes: Vec::new(),
                description,
            };
            proof {
                assert(scope_pairs_v(scheme.scopes@) =~= Seq::<(Seq<char>, Seq<char>)>::empty());
            }
            (Some(def_name), scheme)
        },
        SecuritySource::Child { parent_name, parent_scheme, scopes } => {
            let mut scheme = match parent_scheme {
                Some(s) => s,
                None => SecurityScheme {
                    type_: String::new(),
                    name: None,
                    in_: None,
                    flow: None,
                    auth_url: None,
                    token_url: None,
                    scopes: Vec::new(),
                    description: None,
                },
            };
            scheme.scopes = scopes_map(&scopes);
            (parent_name, scheme)
        },
    }
}

} // verus!

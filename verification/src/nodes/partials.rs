//! Resolution of a partial-reference element to a concrete file location:
//! the `src` attribute is taken relative to each configured search
//! directory in order, and the first candidate that exists on disk wins.

use vstd::prelude::*;
use vstd::string::StringExecFns;

use crate::ast::find_deepest_partial;
use crate::ast::get_ancestor_chain;
use crate::ast::is_partial_pred;
use crate::ast::spec_ancestor_chain;
use crate::ast::spec_deepest_match;
use crate::config::Config;
use crate::config::path_join;
use crate::config::spec_path_join;
use crate::nodes::AttributeContent;
use crate::nodes::AttributeValue;
use crate::nodes::MdxJsxFlowElement;
use crate::nodes::Node;
use crate::nodes::Position;

verus! {

/// Relies on std::path::Path::exists: true when the path points at an
/// existing filesystem entity; metadata that cannot be read (a broken link,
/// a permission error) reads as absent. What it returns depends on the
/// state of the disk, so nothing is assumed of the outcome.
#[verifier::external_body]
fn path_exists(path: &String) -> bool {
    std::path::Path::new(path.as_str()).exists()
}

/// The `src` of one attribute: the value, when the attribute is a property
/// named `src` holding a literal string.
pub open spec fn spec_attr_src(attr: AttributeContent) -> Option<String> {
    match attr {
        AttributeContent::Property(property) => if property.name@ == "src"@ {
            match property.value {
                Some(AttributeValue::Literal(string)) => Some(string),
                _ => None,
            }
        } else {
            None
        },
        AttributeContent::Expression => None,
    }
}

/// The `src` of an attribute list: the value of the first attribute that is
/// a `src` property holding a literal string, or none when there is no such
/// attribute.
pub open spec fn spec_src_attribute(attributes: Seq<AttributeContent>) -> Option<String>
    decreases attributes.len(),
{
    if attributes.len() == 0 {
        None
    } else if spec_attr_src(attributes[0]) is Some {
        spec_attr_src(attributes[0])
    } else {
        spec_src_attribute(attributes.drop_first())
    }
}

/// Extracts the `src` attribute value of a partial-reference element.
fn src_attribute(attributes: &Vec<AttributeContent>) -> (r: Option<String>)
    ensures
        r == spec_src_attribute(attributes@),
{
    let mut i: usize = 0;
    proof {
        assert(attributes@.skip(0) =~= attributes@);
    }
    while i < attributes.len()
        invariant
            i <= attributes@.len(),
            spec_src_attribute(attributes@) == spec_src_attribute(attributes@.skip(i as int)),
        decreases attributes@.len() - i,
    {
        let ghost rest = attributes@.skip(i as int);
        proof {
            assert(rest[0] == attributes@[i as int]);
        }
        match &attributes[i] {
            AttributeContent::Property(property) => {
                if property.name.eq(&String::from_str("src")) {
                    match &property.value {
                        Some(AttributeValue::Literal(string)) => {
                            return Some(string.clone());
                        },
                        _ => {},
                    }
                }
            },
            _ => {},
        }
        i += 1;
        proof {
            assert(rest.drop_first() =~= attributes@.skip(i as int));
        }
    }
    proof {
        assert(attributes@.skip(attributes@.len() as int).len() == 0);
    }
    None
}

/// Law: an attribute list in which no attribute is a `src` property holding
/// a literal string (the attribute is absent, or its value is an
/// expression) yields no `src` value, so resolution returns none.
pub proof fn lemma_src_attribute_none(attributes: Seq<AttributeContent>)
    requires
        forall|i: int| 0 <= i < attributes.len() ==> spec_attr_src(#[trigger] attributes[i]) is None,
    ensures
        spec_src_attribute(attributes) is None,
    decreases attributes.len(),
{
    if attributes.len() > 0 {
        assert(spec_attr_src(attributes[0]) is None);
        assert forall|i: int| 0 <= i < attributes.drop_first().len() implies spec_attr_src(
            #[trigger] attributes.drop_first()[i],
        ) is None by {
            assert(attributes.drop_first()[i] == attributes[i + 1]);
        }
        lemma_src_attribute_none(attributes.drop_first());
    }
}

/// The ordered-precedence selection: the candidate of the first directory
/// whose probes passed, or none when every probe failed. `exists_flags[i]`
/// is the outcome of probing `candidates[i]`; the decision is a pure
/// function of those outcomes.
pub fn first_hit(candidates: &Vec<String>, exists_flags: &Vec<bool>) -> (r: Option<String>)
    requires
        candidates@.len() == exists_flags@.len(),
    ensures
        match r {
            Some(path) => exists|i: int|
                0 <= i < exists_flags@.len() && exists_flags@[i] && path == candidates@[i] && (
                forall|j: int| 0 <= j < i ==> !exists_flags@[j]),
            None => forall|j: int| 0 <= j < exists_flags@.len() ==> !exists_flags@[j],
        },
{
    let mut j: usize = 0;
    while j < exists_flags.len()
        invariant
            j <= exists_flags@.len(),
            candidates@.len() == exists_flags@.len(),
            forall|k: int| 0 <= k < j ==> !exists_flags@[k],
        decreases exists_flags@.len() - j,
    {
        if exists_flags[j] {
            return Some(candidates[j].clone());
        }
        j += 1;
    }
    None
}

impl Config {
    /// Resolves a partial-reference element against this configuration:
    /// with a non-empty search path, a workspace root, and a literal `src`
    /// attribute, the directories are probed in configured order and the
    /// first one under which `src` exists on disk yields the resolved
    /// location; in every other case the result is none. Filesystem errors
    /// never surface: an unreadable candidate counts as absent. Only the
    /// probes themselves depend on the disk: their outcomes are handed to
    /// `first_hit`, whose contract fixes the selection — the first
    /// directory whose probes passed wins, and none when every probe
    /// failed.
    pub fn find_matching_partial(&self, node: &MdxJsxFlowElement) -> (r: Option<String>)
        ensures
            self.0.partials_dirs@.len() == 0 ==> r is None,
            self.0.workspace_root is None ==> r is None,
            spec_src_attribute(node.attributes@) is None ==> r is None,
            r matches Some(path) ==> self.0.workspace_root matches Some(root)
                && spec_src_attribute(node.attributes@) matches Some(src) && exists|i: int|
                0 <= i < self.0.partials_dirs@.len() && path@ == spec_path_join(
                    spec_path_join(root@, (#[trigger] self.0.partials_dirs@[i])@),
                    src@,
                ),
    {
        let config = &self.0;

        if config.partials_dirs.len() == 0 {
            return None;
        }
        let root = match &config.workspace_root {
            Some(root) => root,
            None => {
                return None;
            },
        };

        let src = match src_attribute(&node.attributes) {
            Some(src) => src,
            None => {
                return None;
            },
        };

        let mut candidates: Vec<String> = Vec::new();
        let mut exists_flags: Vec<bool> = Vec::new();
        let mut i: usize = 0;
        while i < config.partials_dirs.len()
            invariant
                i <= config.partials_dirs@.len(),
                config == &self.0,
                self.0.partials_dirs@.len() != 0,
                self.0.workspace_root == Some(*root),
                spec_src_attribute(node.attributes@) == Some(src),
                candidates@.len() == i,
                exists_flags@.len() == i,
                forall|k: int|
                    0 <= k < i ==> candidates@[k]@ == spec_path_join(
                        spec_path_join(root@, (#[trigger] self.0.partials_dirs@[k])@),
                        src@,
                    ),
            decreases config.partials_dirs@.len() - i,
        {
            let dir_path = path_join(root.as_str(), config.partials_dirs[i].as_str());
            let candidate = path_join(dir_path.as_str(), src.as_str());
            let hit = path_exists(&dir_path) && path_exists(&candidate);
            candidates.push(candidate);
            exists_flags.push(hit);
            i += 1;
        }

        let r = first_hit(&candidates, &exists_flags);
        proof {
            if r is Some {
                let hit_index = choose|i: int|
                    0 <= i < exists_flags@.len() && exists_flags@[i] && r->Some_0
                        == candidates@[i] && (forall|j: int| 0 <= j < i ==> !exists_flags@[j]);
                assert((r->Some_0)@ == spec_path_join(
                    spec_path_join(root@, self.0.partials_dirs@[hit_index]@),
                    src@,
                ));
            }
        }
        r
    }

    /// Serves one definition request: walks the ancestor chain of the
    /// cursor position, takes the deepest enclosing partial reference, and
    /// resolves it. The result is none when the position is inside no
    /// partial reference, and otherwise whatever resolution yields.
    pub fn goto_definition(&self, ast: &Node, position: &Position) -> (r: Option<String>)
        ensures
            spec_deepest_match(spec_ancestor_chain(*ast, *position), is_partial_pred()) is None
                ==> r is None,
            self.0.partials_dirs@.len() == 0 ==> r is None,
            self.0.workspace_root is None ==> r is None,
            spec_deepest_match(spec_ancestor_chain(*ast, *position), is_partial_pred())
                matches Some(n) ==> (n matches Node::MdxJsxFlowElement(element) ==> (
            spec_src_attribute(element.attributes@) is None ==> r is None)),
            r matches Some(path) ==> spec_deepest_match(
                spec_ancestor_chain(*ast, *position),
                is_partial_pred(),
            ) matches Some(n) && n matches Node::MdxJsxFlowElement(element)
                && spec_src_attribute(element.attributes@) matches Some(src)
                && self.0.workspace_root matches Some(root) && exists|i: int|
                0 <= i < self.0.partials_dirs@.len() && path@ == spec_path_join(
                    spec_path_join(root@, (#[trigger] self.0.partials_dirs@[i])@),
                    src@,
                ),
    {
        let ancestor_chain = get_ancestor_chain(ast, position);

        match find_deepest_partial(&ancestor_chain) {
            Some(node) => match node {
                Node::MdxJsxFlowElement(element) => self.find_matching_partial(element),
                _ => None,
            },
            None => None,
        }
    }
}

} // verus!

//! Picking held items from a list, through the fuzzy finder where it is
//! installed, else through plain prompts.

use crate::commands::config::{parse_u32, u32_value};
use crate::commands::purge::span_text;
use crate::domain::timestamp::{Timestamp, NANOS_PER_SEC};
use crate::domain::trash_item::{TrashItem, TrashItemView};
use crate::errors::RmzError;
use crate::ids::{format_id, id_text};
use crate::infra::trash_store::item_views;
use crate::text::{self, chars_of, decimal, trimmed};
use crate::utils::size_format::size_text;
use vstd::prelude::*;

verus! {

/// `which::which` for the program `fzf`: whether an executable of that
/// name is found. Nothing is claimed of the answer.
#[verifier::external_body]
fn fzf_on_path() -> (r: bool) {
    which::which("fzf").is_ok()
}

/// The selector that uses the fuzzy finder.
#[derive(Clone, Copy, Debug, PartialEq, Eq, Structural)]
pub struct FzfSelector {
    /// Whether the fuzzy finder is available on the system.
    available: bool,
}

/// The fallback selector with plain prompts.
#[derive(Clone, Copy, Debug, PartialEq, Eq, Structural)]
pub struct DialoguerSelector;

/// The selector in use.
#[derive(Clone, Copy, Debug, PartialEq, Eq, Structural)]
pub enum Selector {
    Fzf(FzfSelector),
    Dialoguer(DialoguerSelector),
}

/// `n` as a numeral of three characters at least, with blanks before it.
pub open spec fn padded(n: nat) -> Seq<char> {
    if n < 10 {
        "  "@ + decimal(n)
    } else if n < 100 {
        " "@ + decimal(n)
    } else {
        decimal(n)
    }
}

/// The line that shows `item` at position `index` of a list, at `now`.
pub open spec fn item_line(item: TrashItemView, index: nat, relative_time: Seq<char>) -> Seq<char> {
    padded(index + 1) + ": "@ + item.meta.original_path + " ("@ + size_text(item.meta.size)
        + ") deleted "@ + relative_time + " "@ + id_text(item.meta.id).take(8)
}

/// The part of a line before its first colon; all of it where it has none.
pub open spec fn before_colon(line: Seq<char>) -> Seq<char>
    decreases line.len(),
{
    if line.len() == 0 {
        line
    } else if line[0] == ':' {
        Seq::empty()
    } else {
        seq![line[0]] + before_colon(line.drop_first())
    }
}

/// Whether `r` is the item that the number `index_text` selects from
/// `items`, counted from one: `InvalidSelection` with the text where it is
/// no number, `SelectionOutOfRange` where it is the number of no item.
pub open spec fn picks(r: Result<TrashItem, RmzError>, index_text: Seq<char>, items: Seq<
    TrashItemView,
>) -> bool {
    match u32_value(index_text) {
        Some(n) => if 1 <= n <= items.len() {
            r matches Ok(item) && item@ == items[n - 1]
        } else {
            r matches Err(RmzError::SelectionOutOfRange { text }) && text@ == index_text
        },
        None => r matches Err(RmzError::InvalidSelection { text }) && text@ == index_text,
    }
}

impl FzfSelector {
    /// A selector that knows whether the fuzzy finder is installed.
    pub fn new() -> (r: FzfSelector) {
        FzfSelector { available: fzf_on_path() }
    }

    /// A selector that is told whether the fuzzy finder is installed.
    pub fn with_availability(available: bool) -> (r: FzfSelector)
        ensures
            r.is_available() == available,
    {
        FzfSelector { available }
    }

    /// Whether the fuzzy finder is installed.
    pub closed spec fn spec_is_available(&self) -> bool {
        self.available
    }

    /// Whether the fuzzy finder is installed.
    #[verifier::when_used_as_spec(spec_is_available)]
    pub fn is_available(&self) -> (r: bool)
        ensures
            r == self.spec_is_available(),
    {
        self.available
    }

    /// The line that shows `item` at position `index` of the list.
    pub fn format_item(&self, item: &TrashItem, index: usize, now: &Timestamp) -> (r: String)
        ensures
            r@ == item_line(
                item@,
                index as nat,
                if item@.meta.deleted_at <= now@ {
                    span_text(((now@ - item@.meta.deleted_at) / (NANOS_PER_SEC as int)) as nat)
                } else {
                    "unknown"@
                },
            ),
    {
        let number: u128 = index as u128 + 1;
        let mut r = if number < 10 {
            "  ".to_owned()
        } else if number < 100 {
            " ".to_owned()
        } else {
            "".to_owned()
        };
        proof {
            reveal_strlit("");
            assert(""@ + decimal(number as nat) =~= decimal(number as nat));
        }
        r.append(text::u128_to_text(number).as_str());
        r.append(": ");
        r.append(item.meta.original_path.as_str());
        r.append(" (");
        r.append(crate::utils::size_format::format_size(item.meta.size).as_str());
        r.append(") deleted ");
        r.append(
            crate::commands::purge::format_relative_time(&item.meta.deleted_at, now).as_str(),
        );
        r.append(" ");
        let id = chars_of(format_id(item.meta.id).as_str());
        r.append(text::text_of(&id, 0, 8).as_str());
        r
    }

    /// The item that a line of the list selects, given the number before
    /// its first colon without the white space around it.
    pub fn item_at(index_text: &str, items: &Vec<TrashItem>) -> (r: Result<TrashItem, RmzError>)
        ensures
            picks(r, index_text@, item_views(items@)),
    {
        match parse_u32(index_text) {
            Some(n) => {
                if n == 0 || n as usize > items.len() {
                    Err(RmzError::SelectionOutOfRange { text: index_text.to_owned() })
                } else {
                    Ok(items[n as usize - 1].clone())
                }
            },
            None => Err(RmzError::InvalidSelection { text: index_text.to_owned() }),
        }
    }

    /// The item that the line `selection` of the list selects.
    pub fn parse_selection(&self, selection: &str, items: &Vec<TrashItem>) -> (r: Result<
        TrashItem,
        RmzError,
    >)
        ensures
            picks(r, trimmed(before_colon(selection@)), item_views(items@)),
    {
        let v = chars_of(selection);
        let mut end: usize = 0;
        assert(v@.skip(0) =~= v@);
        while end < v.len() && v[end] != ':'
            invariant
                end <= v.len(),
                before_colon(v@) == v@.take(end as int) + before_colon(v@.skip(end as int)),
            decreases v.len() - end,
        {
            proof {
                let rest = v@.skip(end as int);
                assert(rest[0] == v@[end as int]);
                assert(rest.drop_first() =~= v@.skip(end + 1));
                assert(v@.take(end as int) + (seq![rest[0]] + before_colon(rest.drop_first()))
                    =~= v@.take(end + 1) + before_colon(v@.skip(end + 1)));
            }
            end += 1;
        }
        proof {
            let rest = v@.skip(end as int);
            if end < v.len() {
                assert(rest[0] == ':');
            }
            assert(before_colon(rest) =~= Seq::<char>::empty());
            assert(v@.take(end as int) + Seq::<char>::empty() =~= v@.take(end as int));
        }
        let head = text::text_of(&v, 0, end);
        let index_text = text::trim_of(head.as_str());
        Self::item_at(index_text.as_str(), items)
    }

    /// The item picked from `items`, given the line that the fuzzy finder
    /// returned, if it returned one: nothing from an empty list, a refusal
    /// where the fuzzy finder is not installed, nothing where no line came
    /// back, else the item that the line selects.
    pub fn select_trash_item(&self, items: &Vec<TrashItem>, line: Option<&str>) -> (r: Result<
        Option<TrashItem>,
        RmzError,
    >)
        ensures
            items.len() == 0 ==> r == Ok::<Option<TrashItem>, RmzError>(None),
            items.len() > 0 && !self.is_available() ==> (r matches Err(
                RmzError::Failed { message },
            ) && message@ == "fzf is not available"@),
            items.len() > 0 && self.is_available() && line is None ==> r == Ok::<
                Option<TrashItem>,
                RmzError,
            >(None),
            items.len() > 0 && self.is_available() && line is Some ==> exists|picked: Result<
                TrashItem,
                RmzError,
            >| #[trigger]
                picks(picked, trimmed(before_colon(trimmed(line->0@))), item_views(items@))
                    && match picked {
                    Ok(item) => r == Ok::<Option<TrashItem>, RmzError>(Some(item)),
                    Err(e) => r == Err::<Option<TrashItem>, RmzError>(e),
                },
    {
        if items.len() == 0 {
            return Ok(None);
        }
        if !self.available {
            return Err(RmzError::Failed { message: "fzf is not available".to_owned() });
        }
        match line {
            None => Ok(None),
            Some(selection) => {
                let clean = text::trim_of(selection);
                let picked = self.parse_selection(clean.as_str(), items);
                match picked {
                    Ok(item) => {
                        assert(picks(
                            Ok::<TrashItem, RmzError>(item),
                            trimmed(before_colon(trimmed(selection@))),
                            item_views(items@),
                        ));
                        Ok(Some(item))
                    },
                    Err(e) => {
                        assert(picks(
                            Err::<TrashItem, RmzError>(e),
                            trimmed(before_colon(trimmed(selection@))),
                            item_views(items@),
                        ));
                        Err(e)
                    },
                }
            },
        }
    }
}

impl DialoguerSelector {
    /// The fallback selector.
    pub fn new() -> (r: DialoguerSelector) {
        DialoguerSelector
    }

    /// The item picked from `items`, given the position that the user
    /// chose, if any.
    pub fn select_trash_item(&self, items: &Vec<TrashItem>, choice: Option<usize>) -> (r: Option<
        TrashItem,
    >)
        ensures
            match choice {
                Some(i) => if i < items.len() {
                    r matches Some(item) && item@ == items@[i as int]@
                } else {
                    r is None
                },
                None => r is None,
            },
    {
        match choice {
            Some(i) => {
                if i < items.len() {
                    Some(items[i].clone())
                } else {
                    None
                }
            },
            None => None,
        }
    }
}

/// The selector for a system: the fuzzy finder where it is installed, else
/// plain prompts.
pub fn selector_for(fzf_selector: FzfSelector) -> (r: Selector)
    ensures
        r == if fzf_selector.is_available() {
            Selector::Fzf(fzf_selector)
        } else {
            Selector::Dialoguer(DialoguerSelector)
        },
{
    if fzf_selector.is_available() {
        Selector::Fzf(fzf_selector)
    } else {
        Selector::Dialoguer(DialoguerSelector::new())
    }
}

/// The selector for the present system.
pub fn create_selector() -> (r: Selector)
    ensures
        r matches Selector::Fzf(f) ==> f.is_available(),
{
    selector_for(FzfSelector::new())
}

} // verus!

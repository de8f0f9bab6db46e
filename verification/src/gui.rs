use vstd::prelude::*;
use crate::components::Entity;
use crate::player::Command;
use crate::world::World;

verus! {

/// The entry highlighted in the main menu.
#[derive(PartialEq, Eq, Structural, Copy, Clone, Debug)]
pub enum MenuSelection {
    NewGame,
    Quit,
}

/// What a main-menu keypress amounts to: either a settled choice, or merely a
/// (possibly moved) highlight.
#[derive(PartialEq, Eq, Structural, Copy, Clone, Debug)]
pub enum MenuResult {
    NoSelection { selected: MenuSelection },
    Selection { selected: MenuSelection },
}

/// What an item-menu keypress amounts to.
#[derive(PartialEq, Eq, Structural, Copy, Clone, Debug)]
pub enum ItemMenuResult {
    Cancel,
    NoResponse,
    Selected,
}

/// The player's backpack, listed in slot order: what the item menus offer.
pub open spec fn pack_list(w: World, k: int) -> Seq<Entity>
    decreases k,
{
    if k <= 0 {
        Seq::empty()
    } else {
        pack_list(w, k - 1) + (if w.alive@[k - 1] && (w.backpacks@[k - 1] matches Some(b)
            && b.owner == w.player_entity) {
            seq![w.ent_at(k - 1)]
        } else {
            Seq::empty()
        })
    }
}

/// Builds the player's inventory listing.
pub fn list_backpack(w: &World) -> (r: Vec<Entity>)
    requires
        w.wf(),
    ensures
        r@ == pack_list(*w, w.n()),
{
    let n = w.gens.len();
    let mut r: Vec<Entity> = Vec::new();
    let mut i: usize = 0;
    while i < n
        invariant
            i <= n,
            n == w.n(),
            w.wf(),
            r@ == pack_list(*w, i as int),
        decreases n - i,
    {
        let carried = w.alive[i] && match &w.backpacks[i] {
            Option::Some(b) => b.owner == w.player_entity,
            Option::None => false,
        };
        if carried {
            r.push(Entity { id: i, gen: w.gens[i] });
        }
        proof {
            assert(r@ =~= pack_list(*w, i as int + 1));
        }
        i = i + 1;
    }
    r
}

/// Resolves one keypress against an item menu over the player's backpack:
/// escape cancels, a letter in range selects that entry, anything else waits.
pub fn item_menu_choice(w: &World, cmd: Command) -> (r: (ItemMenuResult, Option<Entity>))
    requires
        w.wf(),
    ensures
        match cmd {
            Command::Cancel => r == (ItemMenuResult::Cancel, Option::<Entity>::None),
            Command::Select { idx } => if idx < pack_list(*w, w.n()).len() {
                r == (
                    ItemMenuResult::Selected,
                    Option::Some(pack_list(*w, w.n())[idx as int]),
                )
            } else {
                r == (ItemMenuResult::NoResponse, Option::<Entity>::None)
            },
            _ => r == (ItemMenuResult::NoResponse, Option::<Entity>::None),
        },
{
    match cmd {
        Command::Cancel => (ItemMenuResult::Cancel, None),
        Command::Select { idx } => {
            let list = list_backpack(w);
            if idx < list.len() {
                (ItemMenuResult::Selected, Some(list[idx]))
            } else {
                (ItemMenuResult::NoResponse, None)
            }
        },
        _ => (ItemMenuResult::NoResponse, None),
    }
}

/// Resolves one keypress on the main menu: arrows toggle the highlight,
/// confirm settles it, escape moves the highlight to quitting.
pub fn menu_choice(current: MenuSelection, cmd: Command) -> (r: MenuResult)
    ensures
        r == (match cmd {
            Command::Confirm => MenuResult::Selection { selected: current },
            Command::MenuUp | Command::MenuDown => MenuResult::NoSelection {
                selected: (if current == MenuSelection::NewGame {
                    MenuSelection::Quit
                } else {
                    MenuSelection::NewGame
                }),
            },
            Command::Cancel => MenuResult::NoSelection { selected: MenuSelection::Quit },
            _ => MenuResult::NoSelection { selected: current },
        }),
{
    match cmd {
        Command::Confirm => MenuResult::Selection { selected: current },
        Command::MenuUp | Command::MenuDown => {
            let next = match current {
                MenuSelection::NewGame => MenuSelection::Quit,
                MenuSelection::Quit => MenuSelection::NewGame,
            };
            MenuResult::NoSelection { selected: next }
        },
        Command::Cancel => MenuResult::NoSelection { selected: MenuSelection::Quit },
        _ => MenuResult::NoSelection { selected: current },
    }
}

} // verus!

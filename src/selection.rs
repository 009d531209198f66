use vstd::prelude::*;

verus! {

/// Which open tileset is shown and edited, and which one the user picked to
/// show next. Tilesets are identified by their index among the open documents.
#[derive(Debug, Default, Clone, Copy, PartialEq, Eq, Structural)]
pub struct Selection {
    pub currently_selected: Option<usize>,
    pub newly_selected: Option<usize>,
}

/// What a change of selection asks of the view: the tileset whose tiles are
/// hidden and whose camera view is saved, and the tileset whose tiles are
/// shown and whose camera view is restored.
#[derive(Debug, Clone, Copy, PartialEq, Eq, Structural)]
pub struct SelectionChange {
    pub hide: Option<usize>,
    pub show: Option<usize>,
}

/// Moves a newly selected tileset to the currently selected one. The one
/// selected before, if any, is hidden and the new one is shown. Picking the
/// tileset that is already selected only clears the pick, and with nothing
/// picked nothing changes.
pub fn update_selected_tileset(selection: &mut Selection) -> (r: SelectionChange)
    ensures
        match old(selection).newly_selected {
            None => {
                &&& *final(selection) == *old(selection)
                &&& r == (SelectionChange { hide: None, show: None })
            },
            Some(n) => {
                &&& final(selection).currently_selected == Some(n)
                &&& final(selection).newly_selected.is_none()
                &&& if old(selection).currently_selected == Some(n) {
                    r == (SelectionChange { hide: None, show: None })
                } else {
                    r == (SelectionChange { hide: old(selection).currently_selected, show: Some(n) })
                }
            },
        },
{
    match selection.newly_selected {
        None => SelectionChange { hide: None, show: None },
        Some(n) => {
            let before = selection.currently_selected;
            selection.currently_selected = Some(n);
            selection.newly_selected = None;
            if before == Some(n) {
                SelectionChange { hide: None, show: None }
            } else {
                SelectionChange { hide: before, show: Some(n) }
            }
        },
    }
}

} // verus!

//! What the widget tree shows: which widget a name stands for, every child in order,
//! and each argument in its place.

use crate::arkts::leaf::{
    button, image, menu, menu_items, menu_list, picker, progress, registered, slider, text_slots,
    text_widget, textfield, toggle, unsupported, EmitView,
};
use crate::arkts::leaf_laws::{number_at, text_at};
use crate::arkts::literal::{sanitized, string_lit};
use crate::arkts::occurs::{
    lemma_occurs_join, lemma_occurs_left, lemma_occurs_right, occurs, split_at,
};
use crate::arkts::state::StateView;
use crate::arkts::style::style_modifiers;
use crate::arkts::style_laws::given;
use crate::arkts::value::{array_source, at, object_props, prop_in};
use crate::arkts::widget::{
    bare, deeper, first_expr, for_each, grid, grid_columns, grid_item_text, grid_text, in_loop,
    kids, lazy_field_id, lazy_list, lazy_run, loop_body, loop_param, scrollview, section, shown,
    stack, stack_spacing, stack_text, stacked, state_text, style_text, tab, tab_blocks, tabs,
    widget, widgets, EnvView, ListRun, NOT_AN_ARRAY, PlaceView, UNRECOGNIZED, WidgetRun,
};
use crate::hir::LocalId;
use crate::model::{ClassView, ExprView, StmtView};
use crate::num::truncated;
use crate::text::{begins_with, indented, join, levels};
use crate::text_laws::law_join;
use vstd::prelude::*;

verus! {

// ---------------------------------------------------------------------------
// Names
// ---------------------------------------------------------------------------

/// The names of the widgets differ.
proof fn lemma_widget_names()
    ensures
        "VStack"@ != "Text"@,
        "HStack"@ != "Text"@,
        "HStack"@ != "VStack"@,
        "Button"@ != "Text"@,
        "Button"@ != "VStack"@,
        "Button"@ != "HStack"@,
        "TextField"@ != "Text"@,
        "TextField"@ != "VStack"@,
        "TextField"@ != "HStack"@,
        "TextField"@ != "Button"@,
        "Toggle"@ != "Text"@,
        "Toggle"@ != "VStack"@,
        "Toggle"@ != "HStack"@,
        "Toggle"@ != "Button"@,
        "Toggle"@ != "TextField"@,
        "Slider"@ != "Text"@,
        "Slider"@ != "VStack"@,
        "Slider"@ != "HStack"@,
        "Slider"@ != "Button"@,
        "Slider"@ != "TextField"@,
        "Slider"@ != "Toggle"@,
        "Spacer"@ != "Text"@,
        "Spacer"@ != "VStack"@,
        "Spacer"@ != "HStack"@,
        "Spacer"@ != "Button"@,
        "Spacer"@ != "TextField"@,
        "Spacer"@ != "Toggle"@,
        "Spacer"@ != "Slider"@,
        "Divider"@ != "Text"@,
        "Divider"@ != "VStack"@,
        "Divider"@ != "HStack"@,
        "Divider"@ != "Button"@,
        "Divider"@ != "TextField"@,
        "Divider"@ != "Toggle"@,
        "Divider"@ != "Slider"@,
        "Divider"@ != "Spacer"@,
        "Image"@ != "Text"@,
        "Image"@ != "VStack"@,
        "Image"@ != "HStack"@,
        "Image"@ != "Button"@,
        "Image"@ != "TextField"@,
        "Image"@ != "Toggle"@,
        "Image"@ != "Slider"@,
        "Image"@ != "Spacer"@,
        "Image"@ != "Divider"@,
        "ImageFile"@ != "Text"@,
        "ImageFile"@ != "VStack"@,
        "ImageFile"@ != "HStack"@,
        "ImageFile"@ != "Button"@,
        "ImageFile"@ != "TextField"@,
        "ImageFile"@ != "Toggle"@,
        "ImageFile"@ != "Slider"@,
        "ImageFile"@ != "Spacer"@,
        "ImageFile"@ != "Divider"@,
        "ImageFile"@ != "Image"@,
        "ScrollView"@ != "Text"@,
        "ScrollView"@ != "VStack"@,
        "ScrollView"@ != "HStack"@,
        "ScrollView"@ != "Button"@,
        "ScrollView"@ != "TextField"@,
        "ScrollView"@ != "Toggle"@,
        "ScrollView"@ != "Slider"@,
        "ScrollView"@ != "Spacer"@,
        "ScrollView"@ != "Divider"@,
        "ScrollView"@ != "Image"@,
        "ScrollView"@ != "ImageFile"@,
        "LazyVStack"@ != "Text"@,
        "LazyVStack"@ != "VStack"@,
        "LazyVStack"@ != "HStack"@,
        "LazyVStack"@ != "Button"@,
        "LazyVStack"@ != "TextField"@,
        "LazyVStack"@ != "Toggle"@,
        "LazyVStack"@ != "Slider"@,
        "LazyVStack"@ != "Spacer"@,
        "LazyVStack"@ != "Divider"@,
        "LazyVStack"@ != "Image"@,
        "LazyVStack"@ != "ImageFile"@,
        "LazyVStack"@ != "ScrollView"@,
        "Picker"@ != "Text"@,
        "Picker"@ != "VStack"@,
        "Picker"@ != "HStack"@,
        "Picker"@ != "Button"@,
        "Picker"@ != "TextField"@,
        "Picker"@ != "Toggle"@,
        "Picker"@ != "Slider"@,
        "Picker"@ != "Spacer"@,
        "Picker"@ != "Divider"@,
        "Picker"@ != "Image"@,
        "Picker"@ != "ImageFile"@,
        "Picker"@ != "ScrollView"@,
        "Picker"@ != "LazyVStack"@,
        "ProgressView"@ != "Text"@,
        "ProgressView"@ != "VStack"@,
        "ProgressView"@ != "HStack"@,
        "ProgressView"@ != "Button"@,
        "ProgressView"@ != "TextField"@,
        "ProgressView"@ != "Toggle"@,
        "ProgressView"@ != "Slider"@,
        "ProgressView"@ != "Spacer"@,
        "ProgressView"@ != "Divider"@,
        "ProgressView"@ != "Image"@,
        "ProgressView"@ != "ImageFile"@,
        "ProgressView"@ != "ScrollView"@,
        "ProgressView"@ != "LazyVStack"@,
        "ProgressView"@ != "Picker"@,
        "Section"@ != "Text"@,
        "Section"@ != "VStack"@,
        "Section"@ != "HStack"@,
        "Section"@ != "Button"@,
        "Section"@ != "TextField"@,
        "Section"@ != "Toggle"@,
        "Section"@ != "Slider"@,
        "Section"@ != "Spacer"@,
        "Section"@ != "Divider"@,
        "Section"@ != "Image"@,
        "Section"@ != "ImageFile"@,
        "Section"@ != "ScrollView"@,
        "Section"@ != "LazyVStack"@,
        "Section"@ != "Picker"@,
        "Section"@ != "ProgressView"@,
        "Tabs"@ != "Text"@,
        "Tabs"@ != "VStack"@,
        "Tabs"@ != "HStack"@,
        "Tabs"@ != "Button"@,
        "Tabs"@ != "TextField"@,
        "Tabs"@ != "Toggle"@,
        "Tabs"@ != "Slider"@,
        "Tabs"@ != "Spacer"@,
        "Tabs"@ != "Divider"@,
        "Tabs"@ != "Image"@,
        "Tabs"@ != "ImageFile"@,
        "Tabs"@ != "ScrollView"@,
        "Tabs"@ != "LazyVStack"@,
        "Tabs"@ != "Picker"@,
        "Tabs"@ != "ProgressView"@,
        "Tabs"@ != "Section"@,
        "Modal"@ != "Text"@,
        "Modal"@ != "VStack"@,
        "Modal"@ != "HStack"@,
        "Modal"@ != "Button"@,
        "Modal"@ != "TextField"@,
        "Modal"@ != "Toggle"@,
        "Modal"@ != "Slider"@,
        "Modal"@ != "Spacer"@,
        "Modal"@ != "Divider"@,
        "Modal"@ != "Image"@,
        "Modal"@ != "ImageFile"@,
        "Modal"@ != "ScrollView"@,
        "Modal"@ != "LazyVStack"@,
        "Modal"@ != "Picker"@,
        "Modal"@ != "ProgressView"@,
        "Modal"@ != "Section"@,
        "Modal"@ != "Tabs"@,
        "Dialog"@ != "Text"@,
        "Dialog"@ != "VStack"@,
        "Dialog"@ != "HStack"@,
        "Dialog"@ != "Button"@,
        "Dialog"@ != "TextField"@,
        "Dialog"@ != "Toggle"@,
        "Dialog"@ != "Slider"@,
        "Dialog"@ != "Spacer"@,
        "Dialog"@ != "Divider"@,
        "Dialog"@ != "Image"@,
        "Dialog"@ != "ImageFile"@,
        "Dialog"@ != "ScrollView"@,
        "Dialog"@ != "LazyVStack"@,
        "Dialog"@ != "Picker"@,
        "Dialog"@ != "ProgressView"@,
        "Dialog"@ != "Section"@,
        "Dialog"@ != "Tabs"@,
        "Dialog"@ != "Modal"@,
        "Menu"@ != "Text"@,
        "Menu"@ != "VStack"@,
        "Menu"@ != "HStack"@,
        "Menu"@ != "Button"@,
        "Menu"@ != "TextField"@,
        "Menu"@ != "Toggle"@,
        "Menu"@ != "Slider"@,
        "Menu"@ != "Spacer"@,
        "Menu"@ != "Divider"@,
        "Menu"@ != "Image"@,
        "Menu"@ != "ImageFile"@,
        "Menu"@ != "ScrollView"@,
        "Menu"@ != "LazyVStack"@,
        "Menu"@ != "Picker"@,
        "Menu"@ != "ProgressView"@,
        "Menu"@ != "Section"@,
        "Menu"@ != "Tabs"@,
        "Menu"@ != "Modal"@,
        "Menu"@ != "Dialog"@,
        "ContextMenu"@ != "Text"@,
        "ContextMenu"@ != "VStack"@,
        "ContextMenu"@ != "HStack"@,
        "ContextMenu"@ != "Button"@,
        "ContextMenu"@ != "TextField"@,
        "ContextMenu"@ != "Toggle"@,
        "ContextMenu"@ != "Slider"@,
        "ContextMenu"@ != "Spacer"@,
        "ContextMenu"@ != "Divider"@,
        "ContextMenu"@ != "Image"@,
        "ContextMenu"@ != "ImageFile"@,
        "ContextMenu"@ != "ScrollView"@,
        "ContextMenu"@ != "LazyVStack"@,
        "ContextMenu"@ != "Picker"@,
        "ContextMenu"@ != "ProgressView"@,
        "ContextMenu"@ != "Section"@,
        "ContextMenu"@ != "Tabs"@,
        "ContextMenu"@ != "Modal"@,
        "ContextMenu"@ != "Dialog"@,
        "ContextMenu"@ != "Menu"@,
        "Grid"@ != "Text"@,
        "Grid"@ != "VStack"@,
        "Grid"@ != "HStack"@,
        "Grid"@ != "Button"@,
        "Grid"@ != "TextField"@,
        "Grid"@ != "Toggle"@,
        "Grid"@ != "Slider"@,
        "Grid"@ != "Spacer"@,
        "Grid"@ != "Divider"@,
        "Grid"@ != "Image"@,
        "Grid"@ != "ImageFile"@,
        "Grid"@ != "ScrollView"@,
        "Grid"@ != "LazyVStack"@,
        "Grid"@ != "Picker"@,
        "Grid"@ != "ProgressView"@,
        "Grid"@ != "Section"@,
        "Grid"@ != "Tabs"@,
        "Grid"@ != "Modal"@,
        "Grid"@ != "Dialog"@,
        "Grid"@ != "Menu"@,
        "Grid"@ != "ContextMenu"@,
{
    assert("VStack"@ != "Text"@) by {
        reveal_strlit("VStack");
        reveal_strlit("Text");
        assert("VStack"@.len() != "Text"@.len());
    }
    assert("HStack"@ != "Text"@) by {
        reveal_strlit("HStack");
        reveal_strlit("Text");
        assert("HStack"@.len() != "Text"@.len());
    }
    assert("HStack"@ != "VStack"@) by {
        reveal_strlit("HStack");
        reveal_strlit("VStack");
        assert("HStack"@[0] != "VStack"@[0]);
    }
    assert("Button"@ != "Text"@) by {
        reveal_strlit("Button");
        reveal_strlit("Text");
        assert("Button"@.len() != "Text"@.len());
    }
    assert("Button"@ != "VStack"@) by {
        reveal_strlit("Button");
        reveal_strlit("VStack");
        assert("Button"@[0] != "VStack"@[0]);
    }
    assert("Button"@ != "HStack"@) by {
        reveal_strlit("Button");
        reveal_strlit("HStack");
        assert("Button"@[0] != "HStack"@[0]);
    }
    assert("TextField"@ != "Text"@) by {
        reveal_strlit("TextField");
        reveal_strlit("Text");
        assert("TextField"@.len() != "Text"@.len());
    }
    assert("TextField"@ != "VStack"@) by {
        reveal_strlit("TextField");
        reveal_strlit("VStack");
        assert("TextField"@.len() != "VStack"@.len());
    }
    assert("TextField"@ != "HStack"@) by {
        reveal_strlit("TextField");
        reveal_strlit("HStack");
        assert("TextField"@.len() != "HStack"@.len());
    }
    assert("TextField"@ != "Button"@) by {
        reveal_strlit("TextField");
        reveal_strlit("Button");
        assert("TextField"@.len() != "Button"@.len());
    }
    assert("Toggle"@ != "Text"@) by {
        reveal_strlit("Toggle");
        reveal_strlit("Text");
        assert("Toggle"@.len() != "Text"@.len());
    }
    assert("Toggle"@ != "VStack"@) by {
        reveal_strlit("Toggle");
        reveal_strlit("VStack");
        assert("Toggle"@[0] != "VStack"@[0]);
    }
    assert("Toggle"@ != "HStack"@) by {
        reveal_strlit("Toggle");
        reveal_strlit("HStack");
        assert("Toggle"@[0] != "HStack"@[0]);
    }
    assert("Toggle"@ != "Button"@) by {
        reveal_strlit("Toggle");
        reveal_strlit("Button");
        assert("Toggle"@[0] != "Button"@[0]);
    }
    assert("Toggle"@ != "TextField"@) by {
        reveal_strlit("Toggle");
        reveal_strlit("TextField");
        assert("Toggle"@.len() != "TextField"@.len());
    }
    assert("Slider"@ != "Text"@) by {
        reveal_strlit("Slider");
        reveal_strlit("Text");
        assert("Slider"@.len() != "Text"@.len());
    }
    assert("Slider"@ != "VStack"@) by {
        reveal_strlit("Slider");
        reveal_strlit("VStack");
        assert("Slider"@[0] != "VStack"@[0]);
    }
    assert("Slider"@ != "HStack"@) by {
        reveal_strlit("Slider");
        reveal_strlit("HStack");
        assert("Slider"@[0] != "HStack"@[0]);
    }
    assert("Slider"@ != "Button"@) by {
        reveal_strlit("Slider");
        reveal_strlit("Button");
        assert("Slider"@[0] != "Button"@[0]);
    }
    assert("Slider"@ != "TextField"@) by {
        reveal_strlit("Slider");
        reveal_strlit("TextField");
        assert("Slider"@.len() != "TextField"@.len());
    }
    assert("Slider"@ != "Toggle"@) by {
        reveal_strlit("Slider");
        reveal_strlit("Toggle");
        assert("Slider"@[0] != "Toggle"@[0]);
    }
    assert("Spacer"@ != "Text"@) by {
        reveal_strlit("Spacer");
        reveal_strlit("Text");
        assert("Spacer"@.len() != "Text"@.len());
    }
    assert("Spacer"@ != "VStack"@) by {
        reveal_strlit("Spacer");
        reveal_strlit("VStack");
        assert("Spacer"@[0] != "VStack"@[0]);
    }
    assert("Spacer"@ != "HStack"@) by {
        reveal_strlit("Spacer");
        reveal_strlit("HStack");
        assert("Spacer"@[0] != "HStack"@[0]);
    }
    assert("Spacer"@ != "Button"@) by {
        reveal_strlit("Spacer");
        reveal_strlit("Button");
        assert("Spacer"@[0] != "Button"@[0]);
    }
    assert("Spacer"@ != "TextField"@) by {
        reveal_strlit("Spacer");
        reveal_strlit("TextField");
        assert("Spacer"@.len() != "TextField"@.len());
    }
    assert("Spacer"@ != "Toggle"@) by {
        reveal_strlit("Spacer");
        reveal_strlit("Toggle");
        assert("Spacer"@[0] != "Toggle"@[0]);
    }
    assert("Spacer"@ != "Slider"@) by {
        reveal_strlit("Spacer");
        reveal_strlit("Slider");
        assert("Spacer"@[1] != "Slider"@[1]);
    }
    assert("Divider"@ != "Text"@) by {
        reveal_strlit("Divider");
        reveal_strlit("Text");
        assert("Divider"@.len() != "Text"@.len());
    }
    assert("Divider"@ != "VStack"@) by {
        reveal_strlit("Divider");
        reveal_strlit("VStack");
        assert("Divider"@.len() != "VStack"@.len());
    }
    assert("Divider"@ != "HStack"@) by {
        reveal_strlit("Divider");
        reveal_strlit("HStack");
        assert("Divider"@.len() != "HStack"@.len());
    }
    assert("Divider"@ != "Button"@) by {
        reveal_strlit("Divider");
        reveal_strlit("Button");
        assert("Divider"@.len() != "Button"@.len());
    }
    assert("Divider"@ != "TextField"@) by {
        reveal_strlit("Divider");
        reveal_strlit("TextField");
        assert("Divider"@.len() != "TextField"@.len());
    }
    assert("Divider"@ != "Toggle"@) by {
        reveal_strlit("Divider");
        reveal_strlit("Toggle");
        assert("Divider"@.len() != "Toggle"@.len());
    }
    assert("Divider"@ != "Slider"@) by {
        reveal_strlit("Divider");
        reveal_strlit("Slider");
        assert("Divider"@.len() != "Slider"@.len());
    }
    assert("Divider"@ != "Spacer"@) by {
        reveal_strlit("Divider");
        reveal_strlit("Spacer");
        assert("Divider"@.len() != "Spacer"@.len());
    }
    assert("Image"@ != "Text"@) by {
        reveal_strlit("Image");
        reveal_strlit("Text");
        assert("Image"@.len() != "Text"@.len());
    }
    assert("Image"@ != "VStack"@) by {
        reveal_strlit("Image");
        reveal_strlit("VStack");
        assert("Image"@.len() != "VStack"@.len());
    }
    assert("Image"@ != "HStack"@) by {
        reveal_strlit("Image");
        reveal_strlit("HStack");
        assert("Image"@.len() != "HStack"@.len());
    }
    assert("Image"@ != "Button"@) by {
        reveal_strlit("Image");
        reveal_strlit("Button");
        assert("Image"@.len() != "Button"@.len());
    }
    assert("Image"@ != "TextField"@) by {
        reveal_strlit("Image");
        reveal_strlit("TextField");
        assert("Image"@.len() != "TextField"@.len());
    }
    assert("Image"@ != "Toggle"@) by {
        reveal_strlit("Image");
        reveal_strlit("Toggle");
        assert("Image"@.len() != "Toggle"@.len());
    }
    assert("Image"@ != "Slider"@) by {
        reveal_strlit("Image");
        reveal_strlit("Slider");
        assert("Image"@.len() != "Slider"@.len());
    }
    assert("Image"@ != "Spacer"@) by {
        reveal_strlit("Image");
        reveal_strlit("Spacer");
        assert("Image"@.len() != "Spacer"@.len());
    }
    assert("Image"@ != "Divider"@) by {
        reveal_strlit("Image");
        reveal_strlit("Divider");
        assert("Image"@.len() != "Divider"@.len());
    }
    assert("ImageFile"@ != "Text"@) by {
        reveal_strlit("ImageFile");
        reveal_strlit("Text");
        assert("ImageFile"@.len() != "Text"@.len());
    }
    assert("ImageFile"@ != "VStack"@) by {
        reveal_strlit("ImageFile");
        reveal_strlit("VStack");
        assert("ImageFile"@.len() != "VStack"@.len());
    }
    assert("ImageFile"@ != "HStack"@) by {
        reveal_strlit("ImageFile");
        reveal_strlit("HStack");
        assert("ImageFile"@.len() != "HStack"@.len());
    }
    assert("ImageFile"@ != "Button"@) by {
        reveal_strlit("ImageFile");
        reveal_strlit("Button");
        assert("ImageFile"@.len() != "Button"@.len());
    }
    assert("ImageFile"@ != "TextField"@) by {
        reveal_strlit("ImageFile");
        reveal_strlit("TextField");
        assert("ImageFile"@[0] != "TextField"@[0]);
    }
    assert("ImageFile"@ != "Toggle"@) by {
        reveal_strlit("ImageFile");
        reveal_strlit("Toggle");
        assert("ImageFile"@.len() != "Toggle"@.len());
    }
    assert("ImageFile"@ != "Slider"@) by {
        reveal_strlit("ImageFile");
        reveal_strlit("Slider");
        assert("ImageFile"@.len() != "Slider"@.len());
    }
    assert("ImageFile"@ != "Spacer"@) by {
        reveal_strlit("ImageFile");
        reveal_strlit("Spacer");
        assert("ImageFile"@.len() != "Spacer"@.len());
    }
    assert("ImageFile"@ != "Divider"@) by {
        reveal_strlit("ImageFile");
        reveal_strlit("Divider");
        assert("ImageFile"@.len() != "Divider"@.len());
    }
    assert("ImageFile"@ != "Image"@) by {
        reveal_strlit("ImageFile");
        reveal_strlit("Image");
        assert("ImageFile"@.len() != "Image"@.len());
    }
    assert("ScrollView"@ != "Text"@) by {
        reveal_strlit("ScrollView");
        reveal_strlit("Text");
        assert("ScrollView"@.len() != "Text"@.len());
    }
    assert("ScrollView"@ != "VStack"@) by {
        reveal_strlit("ScrollView");
        reveal_strlit("VStack");
        assert("ScrollView"@.len() != "VStack"@.len());
    }
    assert("ScrollView"@ != "HStack"@) by {
        reveal_strlit("ScrollView");
        reveal_strlit("HStack");
        assert("ScrollView"@.len() != "HStack"@.len());
    }
    assert("ScrollView"@ != "Button"@) by {
        reveal_strlit("ScrollView");
        reveal_strlit("Button");
        assert("ScrollView"@.len() != "Button"@.len());
    }
    assert("ScrollView"@ != "TextField"@) by {
        reveal_strlit("ScrollView");
        reveal_strlit("TextField");
        assert("ScrollView"@.len() != "TextField"@.len());
    }
    assert("ScrollView"@ != "Toggle"@) by {
        reveal_strlit("ScrollView");
        reveal_strlit("Toggle");
        assert("ScrollView"@.len() != "Toggle"@.len());
    }
    assert("ScrollView"@ != "Slider"@) by {
        reveal_strlit("ScrollView");
        reveal_strlit("Slider");
        assert("ScrollView"@.len() != "Slider"@.len());
    }
    assert("ScrollView"@ != "Spacer"@) by {
        reveal_strlit("ScrollView");
        reveal_strlit("Spacer");
        assert("ScrollView"@.len() != "Spacer"@.len());
    }
    assert("ScrollView"@ != "Divider"@) by {
        reveal_strlit("ScrollView");
        reveal_strlit("Divider");
        assert("ScrollView"@.len() != "Divider"@.len());
    }
    assert("ScrollView"@ != "Image"@) by {
        reveal_strlit("ScrollView");
        reveal_strlit("Image");
        assert("ScrollView"@.len() != "Image"@.len());
    }
    assert("ScrollView"@ != "ImageFile"@) by {
        reveal_strlit("ScrollView");
        reveal_strlit("ImageFile");
        assert("ScrollView"@.len() != "ImageFile"@.len());
    }
    assert("LazyVStack"@ != "Text"@) by {
        reveal_strlit("LazyVStack");
        reveal_strlit("Text");
        assert("LazyVStack"@.len() != "Text"@.len());
    }
    assert("LazyVStack"@ != "VStack"@) by {
        reveal_strlit("LazyVStack");
        reveal_strlit("VStack");
        assert("LazyVStack"@.len() != "VStack"@.len());
    }
    assert("LazyVStack"@ != "HStack"@) by {
        reveal_strlit("LazyVStack");
        reveal_strlit("HStack");
        assert("LazyVStack"@.len() != "HStack"@.len());
    }
    assert("LazyVStack"@ != "Button"@) by {
        reveal_strlit("LazyVStack");
        reveal_strlit("Button");
        assert("LazyVStack"@.len() != "Button"@.len());
    }
    assert("LazyVStack"@ != "TextField"@) by {
        reveal_strlit("LazyVStack");
        reveal_strlit("TextField");
        assert("LazyVStack"@.len() != "TextField"@.len());
    }
    assert("LazyVStack"@ != "Toggle"@) by {
        reveal_strlit("LazyVStack");
        reveal_strlit("Toggle");
        assert("LazyVStack"@.len() != "Toggle"@.len());
    }
    assert("LazyVStack"@ != "Slider"@) by {
        reveal_strlit("LazyVStack");
        reveal_strlit("Slider");
        assert("LazyVStack"@.len() != "Slider"@.len());
    }
    assert("LazyVStack"@ != "Spacer"@) by {
        reveal_strlit("LazyVStack");
        reveal_strlit("Spacer");
        assert("LazyVStack"@.len() != "Spacer"@.len());
    }
    assert("LazyVStack"@ != "Divider"@) by {
        reveal_strlit("LazyVStack");
        reveal_strlit("Divider");
        assert("LazyVStack"@.len() != "Divider"@.len());
    }
    assert("LazyVStack"@ != "Image"@) by {
        reveal_strlit("LazyVStack");
        reveal_strlit("Image");
        assert("LazyVStack"@.len() != "Image"@.len());
    }
    assert("LazyVStack"@ != "ImageFile"@) by {
        reveal_strlit("LazyVStack");
        reveal_strlit("ImageFile");
        assert("LazyVStack"@.len() != "ImageFile"@.len());
    }
    assert("LazyVStack"@ != "ScrollView"@) by {
        reveal_strlit("LazyVStack");
        reveal_strlit("ScrollView");
        assert("LazyVStack"@[0] != "ScrollView"@[0]);
    }
    assert("Picker"@ != "Text"@) by {
        reveal_strlit("Picker");
        reveal_strlit("Text");
        assert("Picker"@.len() != "Text"@.len());
    }
    assert("Picker"@ != "VStack"@) by {
        reveal_strlit("Picker");
        reveal_strlit("VStack");
        assert("Picker"@[0] != "VStack"@[0]);
    }
    assert("Picker"@ != "HStack"@) by {
        reveal_strlit("Picker");
        reveal_strlit("HStack");
        assert("Picker"@[0] != "HStack"@[0]);
    }
    assert("Picker"@ != "Button"@) by {
        reveal_strlit("Picker");
        reveal_strlit("Button");
        assert("Picker"@[0] != "Button"@[0]);
    }
    assert("Picker"@ != "TextField"@) by {
        reveal_strlit("Picker");
        reveal_strlit("TextField");
        assert("Picker"@.len() != "TextField"@.len());
    }
    assert("Picker"@ != "Toggle"@) by {
        reveal_strlit("Picker");
        reveal_strlit("Toggle");
        assert("Picker"@[0] != "Toggle"@[0]);
    }
    assert("Picker"@ != "Slider"@) by {
        reveal_strlit("Picker");
        reveal_strlit("Slider");
        assert("Picker"@[0] != "Slider"@[0]);
    }
    assert("Picker"@ != "Spacer"@) by {
        reveal_strlit("Picker");
        reveal_strlit("Spacer");
        assert("Picker"@[0] != "Spacer"@[0]);
    }
    assert("Picker"@ != "Divider"@) by {
        reveal_strlit("Picker");
        reveal_strlit("Divider");
        assert("Picker"@.len() != "Divider"@.len());
    }
    assert("Picker"@ != "Image"@) by {
        reveal_strlit("Picker");
        reveal_strlit("Image");
        assert("Picker"@.len() != "Image"@.len());
    }
    assert("Picker"@ != "ImageFile"@) by {
        reveal_strlit("Picker");
        reveal_strlit("ImageFile");
        assert("Picker"@.len() != "ImageFile"@.len());
    }
    assert("Picker"@ != "ScrollView"@) by {
        reveal_strlit("Picker");
        reveal_strlit("ScrollView");
        assert("Picker"@.len() != "ScrollView"@.len());
    }
    assert("Picker"@ != "LazyVStack"@) by {
        reveal_strlit("Picker");
        reveal_strlit("LazyVStack");
        assert("Picker"@.len() != "LazyVStack"@.len());
    }
    assert("ProgressView"@ != "Text"@) by {
        reveal_strlit("ProgressView");
        reveal_strlit("Text");
        assert("ProgressView"@.len() != "Text"@.len());
    }
    assert("ProgressView"@ != "VStack"@) by {
        reveal_strlit("ProgressView");
        reveal_strlit("VStack");
        assert("ProgressView"@.len() != "VStack"@.len());
    }
    assert("ProgressView"@ != "HStack"@) by {
        reveal_strlit("ProgressView");
        reveal_strlit("HStack");
        assert("ProgressView"@.len() != "HStack"@.len());
    }
    assert("ProgressView"@ != "Button"@) by {
        reveal_strlit("ProgressView");
        reveal_strlit("Button");
        assert("ProgressView"@.len() != "Button"@.len());
    }
    assert("ProgressView"@ != "TextField"@) by {
        reveal_strlit("ProgressView");
        reveal_strlit("TextField");
        assert("ProgressView"@.len() != "TextField"@.len());
    }
    assert("ProgressView"@ != "Toggle"@) by {
        reveal_strlit("ProgressView");
        reveal_strlit("Toggle");
        assert("ProgressView"@.len() != "Toggle"@.len());
    }
    assert("ProgressView"@ != "Slider"@) by {
        reveal_strlit("ProgressView");
        reveal_strlit("Slider");
        assert("ProgressView"@.len() != "Slider"@.len());
    }
    assert("ProgressView"@ != "Spacer"@) by {
        reveal_strlit("ProgressView");
        reveal_strlit("Spacer");
        assert("ProgressView"@.len() != "Spacer"@.len());
    }
    assert("ProgressView"@ != "Divider"@) by {
        reveal_strlit("ProgressView");
        reveal_strlit("Divider");
        assert("ProgressView"@.len() != "Divider"@.len());
    }
    assert("ProgressView"@ != "Image"@) by {
        reveal_strlit("ProgressView");
        reveal_strlit("Image");
        assert("ProgressView"@.len() != "Image"@.len());
    }
    assert("ProgressView"@ != "ImageFile"@) by {
        reveal_strlit("ProgressView");
        reveal_strlit("ImageFile");
        assert("ProgressView"@.len() != "ImageFile"@.len());
    }
    assert("ProgressView"@ != "ScrollView"@) by {
        reveal_strlit("ProgressView");
        reveal_strlit("ScrollView");
        assert("ProgressView"@.len() != "ScrollView"@.len());
    }
    assert("ProgressView"@ != "LazyVStack"@) by {
        reveal_strlit("ProgressView");
        reveal_strlit("LazyVStack");
        assert("ProgressView"@.len() != "LazyVStack"@.len());
    }
    assert("ProgressView"@ != "Picker"@) by {
        reveal_strlit("ProgressView");
        reveal_strlit("Picker");
        assert("ProgressView"@.len() != "Picker"@.len());
    }
    assert("Section"@ != "Text"@) by {
        reveal_strlit("Section");
        reveal_strlit("Text");
        assert("Section"@.len() != "Text"@.len());
    }
    assert("Section"@ != "VStack"@) by {
        reveal_strlit("Section");
        reveal_strlit("VStack");
        assert("Section"@.len() != "VStack"@.len());
    }
    assert("Section"@ != "HStack"@) by {
        reveal_strlit("Section");
        reveal_strlit("HStack");
        assert("Section"@.len() != "HStack"@.len());
    }
    assert("Section"@ != "Button"@) by {
        reveal_strlit("Section");
        reveal_strlit("Button");
        assert("Section"@.len() != "Button"@.len());
    }
    assert("Section"@ != "TextField"@) by {
        reveal_strlit("Section");
        reveal_strlit("TextField");
        assert("Section"@.len() != "TextField"@.len());
    }
    assert("Section"@ != "Toggle"@) by {
        reveal_strlit("Section");
        reveal_strlit("Toggle");
        assert("Section"@.len() != "Toggle"@.len());
    }
    assert("Section"@ != "Slider"@) by {
        reveal_strlit("Section");
        reveal_strlit("Slider");
        assert("Section"@.len() != "Slider"@.len());
    }
    assert("Section"@ != "Spacer"@) by {
        reveal_strlit("Section");
        reveal_strlit("Spacer");
        assert("Section"@.len() != "Spacer"@.len());
    }
    assert("Section"@ != "Divider"@) by {
        reveal_strlit("Section");
        reveal_strlit("Divider");
        assert("Section"@[0] != "Divider"@[0]);
    }
    assert("Section"@ != "Image"@) by {
        reveal_strlit("Section");
        reveal_strlit("Image");
        assert("Section"@.len() != "Image"@.len());
    }
    assert("Section"@ != "ImageFile"@) by {
        reveal_strlit("Section");
        reveal_strlit("ImageFile");
        assert("Section"@.len() != "ImageFile"@.len());
    }
    assert("Section"@ != "ScrollView"@) by {
        reveal_strlit("Section");
        reveal_strlit("ScrollView");
        assert("Section"@.len() != "ScrollView"@.len());
    }
    assert("Section"@ != "LazyVStack"@) by {
        reveal_strlit("Section");
        reveal_strlit("LazyVStack");
        assert("Section"@.len() != "LazyVStack"@.len());
    }
    assert("Section"@ != "Picker"@) by {
        reveal_strlit("Section");
        reveal_strlit("Picker");
        assert("Section"@.len() != "Picker"@.len());
    }
    assert("Section"@ != "ProgressView"@) by {
        reveal_strlit("Section");
        reveal_strlit("ProgressView");
        assert("Section"@.len() != "ProgressView"@.len());
    }
    assert("Tabs"@ != "Text"@) by {
        reveal_strlit("Tabs");
        reveal_strlit("Text");
        assert("Tabs"@[1] != "Text"@[1]);
    }
    assert("Tabs"@ != "VStack"@) by {
        reveal_strlit("Tabs");
        reveal_strlit("VStack");
        assert("Tabs"@.len() != "VStack"@.len());
    }
    assert("Tabs"@ != "HStack"@) by {
        reveal_strlit("Tabs");
        reveal_strlit("HStack");
        assert("Tabs"@.len() != "HStack"@.len());
    }
    assert("Tabs"@ != "Button"@) by {
        reveal_strlit("Tabs");
        reveal_strlit("Button");
        assert("Tabs"@.len() != "Button"@.len());
    }
    assert("Tabs"@ != "TextField"@) by {
        reveal_strlit("Tabs");
        reveal_strlit("TextField");
        assert("Tabs"@.len() != "TextField"@.len());
    }
    assert("Tabs"@ != "Toggle"@) by {
        reveal_strlit("Tabs");
        reveal_strlit("Toggle");
        assert("Tabs"@.len() != "Toggle"@.len());
    }
    assert("Tabs"@ != "Slider"@) by {
        reveal_strlit("Tabs");
        reveal_strlit("Slider");
        assert("Tabs"@.len() != "Slider"@.len());
    }
    assert("Tabs"@ != "Spacer"@) by {
        reveal_strlit("Tabs");
        reveal_strlit("Spacer");
        assert("Tabs"@.len() != "Spacer"@.len());
    }
    assert("Tabs"@ != "Divider"@) by {
        reveal_strlit("Tabs");
        reveal_strlit("Divider");
        assert("Tabs"@.len() != "Divider"@.len());
    }
    assert("Tabs"@ != "Image"@) by {
        reveal_strlit("Tabs");
        reveal_strlit("Image");
        assert("Tabs"@.len() != "Image"@.len());
    }
    assert("Tabs"@ != "ImageFile"@) by {
        reveal_strlit("Tabs");
        reveal_strlit("ImageFile");
        assert("Tabs"@.len() != "ImageFile"@.len());
    }
    assert("Tabs"@ != "ScrollView"@) by {
        reveal_strlit("Tabs");
        reveal_strlit("ScrollView");
        assert("Tabs"@.len() != "ScrollView"@.len());
    }
    assert("Tabs"@ != "LazyVStack"@) by {
        reveal_strlit("Tabs");
        reveal_strlit("LazyVStack");
        assert("Tabs"@.len() != "LazyVStack"@.len());
    }
    assert("Tabs"@ != "Picker"@) by {
        reveal_strlit("Tabs");
        reveal_strlit("Picker");
        assert("Tabs"@.len() != "Picker"@.len());
    }
    assert("Tabs"@ != "ProgressView"@) by {
        reveal_strlit("Tabs");
        reveal_strlit("ProgressView");
        assert("Tabs"@.len() != "ProgressView"@.len());
    }
    assert("Tabs"@ != "Section"@) by {
        reveal_strlit("Tabs");
        reveal_strlit("Section");
        assert("Tabs"@.len() != "Section"@.len());
    }
    assert("Modal"@ != "Text"@) by {
        reveal_strlit("Modal");
        reveal_strlit("Text");
        assert("Modal"@.len() != "Text"@.len());
    }
    assert("Modal"@ != "VStack"@) by {
        reveal_strlit("Modal");
        reveal_strlit("VStack");
        assert("Modal"@.len() != "VStack"@.len());
    }
    assert("Modal"@ != "HStack"@) by {
        reveal_strlit("Modal");
        reveal_strlit("HStack");
        assert("Modal"@.len() != "HStack"@.len());
    }
    assert("Modal"@ != "Button"@) by {
        reveal_strlit("Modal");
        reveal_strlit("Button");
        assert("Modal"@.len() != "Button"@.len());
    }
    assert("Modal"@ != "TextField"@) by {
        reveal_strlit("Modal");
        reveal_strlit("TextField");
        assert("Modal"@.len() != "TextField"@.len());
    }
    assert("Modal"@ != "Toggle"@) by {
        reveal_strlit("Modal");
        reveal_strlit("Toggle");
        assert("Modal"@.len() != "Toggle"@.len());
    }
    assert("Modal"@ != "Slider"@) by {
        reveal_strlit("Modal");
        reveal_strlit("Slider");
        assert("Modal"@.len() != "Slider"@.len());
    }
    assert("Modal"@ != "Spacer"@) by {
        reveal_strlit("Modal");
        reveal_strlit("Spacer");
        assert("Modal"@.len() != "Spacer"@.len());
    }
    assert("Modal"@ != "Divider"@) by {
        reveal_strlit("Modal");
        reveal_strlit("Divider");
        assert("Modal"@.len() != "Divider"@.len());
    }
    assert("Modal"@ != "Image"@) by {
        reveal_strlit("Modal");
        reveal_strlit("Image");
        assert("Modal"@[0] != "Image"@[0]);
    }
    assert("Modal"@ != "ImageFile"@) by {
        reveal_strlit("Modal");
        reveal_strlit("ImageFile");
        assert("Modal"@.len() != "ImageFile"@.len());
    }
    assert("Modal"@ != "ScrollView"@) by {
        reveal_strlit("Modal");
        reveal_strlit("ScrollView");
        assert("Modal"@.len() != "ScrollView"@.len());
    }
    assert("Modal"@ != "LazyVStack"@) by {
        reveal_strlit("Modal");
        reveal_strlit("LazyVStack");
        assert("Modal"@.len() != "LazyVStack"@.len());
    }
    assert("Modal"@ != "Picker"@) by {
        reveal_strlit("Modal");
        reveal_strlit("Picker");
        assert("Modal"@.len() != "Picker"@.len());
    }
    assert("Modal"@ != "ProgressView"@) by {
        reveal_strlit("Modal");
        reveal_strlit("ProgressView");
        assert("Modal"@.len() != "ProgressView"@.len());
    }
    assert("Modal"@ != "Section"@) by {
        reveal_strlit("Modal");
        reveal_strlit("Section");
        assert("Modal"@.len() != "Section"@.len());
    }
    assert("Modal"@ != "Tabs"@) by {
        reveal_strlit("Modal");
        reveal_strlit("Tabs");
        assert("Modal"@.len() != "Tabs"@.len());
    }
    assert("Dialog"@ != "Text"@) by {
        reveal_strlit("Dialog");
        reveal_strlit("Text");
        assert("Dialog"@.len() != "Text"@.len());
    }
    assert("Dialog"@ != "VStack"@) by {
        reveal_strlit("Dialog");
        reveal_strlit("VStack");
        assert("Dialog"@[0] != "VStack"@[0]);
    }
    assert("Dialog"@ != "HStack"@) by {
        reveal_strlit("Dialog");
        reveal_strlit("HStack");
        assert("Dialog"@[0] != "HStack"@[0]);
    }
    assert("Dialog"@ != "Button"@) by {
        reveal_strlit("Dialog");
        reveal_strlit("Button");
        assert("Dialog"@[0] != "Button"@[0]);
    }
    assert("Dialog"@ != "TextField"@) by {
        reveal_strlit("Dialog");
        reveal_strlit("TextField");
        assert("Dialog"@.len() != "TextField"@.len());
    }
    assert("Dialog"@ != "Toggle"@) by {
        reveal_strlit("Dialog");
        reveal_strlit("Toggle");
        assert("Dialog"@[0] != "Toggle"@[0]);
    }
    assert("Dialog"@ != "Slider"@) by {
        reveal_strlit("Dialog");
        reveal_strlit("Slider");
        assert("Dialog"@[0] != "Slider"@[0]);
    }
    assert("Dialog"@ != "Spacer"@) by {
        reveal_strlit("Dialog");
        reveal_strlit("Spacer");
        assert("Dialog"@[0] != "Spacer"@[0]);
    }
    assert("Dialog"@ != "Divider"@) by {
        reveal_strlit("Dialog");
        reveal_strlit("Divider");
        assert("Dialog"@.len() != "Divider"@.len());
    }
    assert("Dialog"@ != "Image"@) by {
        reveal_strlit("Dialog");
        reveal_strlit("Image");
        assert("Dialog"@.len() != "Image"@.len());
    }
    assert("Dialog"@ != "ImageFile"@) by {
        reveal_strlit("Dialog");
        reveal_strlit("ImageFile");
        assert("Dialog"@.len() != "ImageFile"@.len());
    }
    assert("Dialog"@ != "ScrollView"@) by {
        reveal_strlit("Dialog");
        reveal_strlit("ScrollView");
        assert("Dialog"@.len() != "ScrollView"@.len());
    }
    assert("Dialog"@ != "LazyVStack"@) by {
        reveal_strlit("Dialog");
        reveal_strlit("LazyVStack");
        assert("Dialog"@.len() != "LazyVStack"@.len());
    }
    assert("Dialog"@ != "Picker"@) by {
        reveal_strlit("Dialog");
        reveal_strlit("Picker");
        assert("Dialog"@[0] != "Picker"@[0]);
    }
    assert("Dialog"@ != "ProgressView"@) by {
        reveal_strlit("Dialog");
        reveal_strlit("ProgressView");
        assert("Dialog"@.len() != "ProgressView"@.len());
    }
    assert("Dialog"@ != "Section"@) by {
        reveal_strlit("Dialog");
        reveal_strlit("Section");
        assert("Dialog"@.len() != "Section"@.len());
    }
    assert("Dialog"@ != "Tabs"@) by {
        reveal_strlit("Dialog");
        reveal_strlit("Tabs");
        assert("Dialog"@.len() != "Tabs"@.len());
    }
    assert("Dialog"@ != "Modal"@) by {
        reveal_strlit("Dialog");
        reveal_strlit("Modal");
        assert("Dialog"@.len() != "Modal"@.len());
    }
    assert("Menu"@ != "Text"@) by {
        reveal_strlit("Menu");
        reveal_strlit("Text");
        assert("Menu"@[0] != "Text"@[0]);
    }
    assert("Menu"@ != "VStack"@) by {
        reveal_strlit("Menu");
        reveal_strlit("VStack");
        assert("Menu"@.len() != "VStack"@.len());
    }
    assert("Menu"@ != "HStack"@) by {
        reveal_strlit("Menu");
        reveal_strlit("HStack");
        assert("Menu"@.len() != "HStack"@.len());
    }
    assert("Menu"@ != "Button"@) by {
        reveal_strlit("Menu");
        reveal_strlit("Button");
        assert("Menu"@.len() != "Button"@.len());
    }
    assert("Menu"@ != "TextField"@) by {
        reveal_strlit("Menu");
        reveal_strlit("TextField");
        assert("Menu"@.len() != "TextField"@.len());
    }
    assert("Menu"@ != "Toggle"@) by {
        reveal_strlit("Menu");
        reveal_strlit("Toggle");
        assert("Menu"@.len() != "Toggle"@.len());
    }
    assert("Menu"@ != "Slider"@) by {
        reveal_strlit("Menu");
        reveal_strlit("Slider");
        assert("Menu"@.len() != "Slider"@.len());
    }
    assert("Menu"@ != "Spacer"@) by {
        reveal_strlit("Menu");
        reveal_strlit("Spacer");
        assert("Menu"@.len() != "Spacer"@.len());
    }
    assert("Menu"@ != "Divider"@) by {
        reveal_strlit("Menu");
        reveal_strlit("Divider");
        assert("Menu"@.len() != "Divider"@.len());
    }
    assert("Menu"@ != "Image"@) by {
        reveal_strlit("Menu");
        reveal_strlit("Image");
        assert("Menu"@.len() != "Image"@.len());
    }
    assert("Menu"@ != "ImageFile"@) by {
        reveal_strlit("Menu");
        reveal_strlit("ImageFile");
        assert("Menu"@.len() != "ImageFile"@.len());
    }
    assert("Menu"@ != "ScrollView"@) by {
        reveal_strlit("Menu");
        reveal_strlit("ScrollView");
        assert("Menu"@.len() != "ScrollView"@.len());
    }
    assert("Menu"@ != "LazyVStack"@) by {
        reveal_strlit("Menu");
        reveal_strlit("LazyVStack");
        assert("Menu"@.len() != "LazyVStack"@.len());
    }
    assert("Menu"@ != "Picker"@) by {
        reveal_strlit("Menu");
        reveal_strlit("Picker");
        assert("Menu"@.len() != "Picker"@.len());
    }
    assert("Menu"@ != "ProgressView"@) by {
        reveal_strlit("Menu");
        reveal_strlit("ProgressView");
        assert("Menu"@.len() != "ProgressView"@.len());
    }
    assert("Menu"@ != "Section"@) by {
        reveal_strlit("Menu");
        reveal_strlit("Section");
        assert("Menu"@.len() != "Section"@.len());
    }
    assert("Menu"@ != "Tabs"@) by {
        reveal_strlit("Menu");
        reveal_strlit("Tabs");
        assert("Menu"@[0] != "Tabs"@[0]);
    }
    assert("Menu"@ != "Modal"@) by {
        reveal_strlit("Menu");
        reveal_strlit("Modal");
        assert("Menu"@.len() != "Modal"@.len());
    }
    assert("Menu"@ != "Dialog"@) by {
        reveal_strlit("Menu");
        reveal_strlit("Dialog");
        assert("Menu"@.len() != "Dialog"@.len());
    }
    assert("ContextMenu"@ != "Text"@) by {
        reveal_strlit("ContextMenu");
        reveal_strlit("Text");
        assert("ContextMenu"@.len() != "Text"@.len());
    }
    assert("ContextMenu"@ != "VStack"@) by {
        reveal_strlit("ContextMenu");
        reveal_strlit("VStack");
        assert("ContextMenu"@.len() != "VStack"@.len());
    }
    assert("ContextMenu"@ != "HStack"@) by {
        reveal_strlit("ContextMenu");
        reveal_strlit("HStack");
        assert("ContextMenu"@.len() != "HStack"@.len());
    }
    assert("ContextMenu"@ != "Button"@) by {
        reveal_strlit("ContextMenu");
        reveal_strlit("Button");
        assert("ContextMenu"@.len() != "Button"@.len());
    }
    assert("ContextMenu"@ != "TextField"@) by {
        reveal_strlit("ContextMenu");
        reveal_strlit("TextField");
        assert("ContextMenu"@.len() != "TextField"@.len());
    }
    assert("ContextMenu"@ != "Toggle"@) by {
        reveal_strlit("ContextMenu");
        reveal_strlit("Toggle");
        assert("ContextMenu"@.len() != "Toggle"@.len());
    }
    assert("ContextMenu"@ != "Slider"@) by {
        reveal_strlit("ContextMenu");
        reveal_strlit("Slider");
        assert("ContextMenu"@.len() != "Slider"@.len());
    }
    assert("ContextMenu"@ != "Spacer"@) by {
        reveal_strlit("ContextMenu");
        reveal_strlit("Spacer");
        assert("ContextMenu"@.len() != "Spacer"@.len());
    }
    assert("ContextMenu"@ != "Divider"@) by {
        reveal_strlit("ContextMenu");
        reveal_strlit("Divider");
        assert("ContextMenu"@.len() != "Divider"@.len());
    }
    assert("ContextMenu"@ != "Image"@) by {
        reveal_strlit("ContextMenu");
        reveal_strlit("Image");
        assert("ContextMenu"@.len() != "Image"@.len());
    }
    assert("ContextMenu"@ != "ImageFile"@) by {
        reveal_strlit("ContextMenu");
        reveal_strlit("ImageFile");
        assert("ContextMenu"@.len() != "ImageFile"@.len());
    }
    assert("ContextMenu"@ != "ScrollView"@) by {
        reveal_strlit("ContextMenu");
        reveal_strlit("ScrollView");
        assert("ContextMenu"@.len() != "ScrollView"@.len());
    }
    assert("ContextMenu"@ != "LazyVStack"@) by {
        reveal_strlit("ContextMenu");
        reveal_strlit("LazyVStack");
        assert("ContextMenu"@.len() != "LazyVStack"@.len());
    }
    assert("ContextMenu"@ != "Picker"@) by {
        reveal_strlit("ContextMenu");
        reveal_strlit("Picker");
        assert("ContextMenu"@.len() != "Picker"@.len());
    }
    assert("ContextMenu"@ != "ProgressView"@) by {
        reveal_strlit("ContextMenu");
        reveal_strlit("ProgressView");
        assert("ContextMenu"@.len() != "ProgressView"@.len());
    }
    assert("ContextMenu"@ != "Section"@) by {
        reveal_strlit("ContextMenu");
        reveal_strlit("Section");
        assert("ContextMenu"@.len() != "Section"@.len());
    }
    assert("ContextMenu"@ != "Tabs"@) by {
        reveal_strlit("ContextMenu");
        reveal_strlit("Tabs");
        assert("ContextMenu"@.len() != "Tabs"@.len());
    }
    assert("ContextMenu"@ != "Modal"@) by {
        reveal_strlit("ContextMenu");
        reveal_strlit("Modal");
        assert("ContextMenu"@.len() != "Modal"@.len());
    }
    assert("ContextMenu"@ != "Dialog"@) by {
        reveal_strlit("ContextMenu");
        reveal_strlit("Dialog");
        assert("ContextMenu"@.len() != "Dialog"@.len());
    }
    assert("ContextMenu"@ != "Menu"@) by {
        reveal_strlit("ContextMenu");
        reveal_strlit("Menu");
        assert("ContextMenu"@.len() != "Menu"@.len());
    }
    assert("Grid"@ != "Text"@) by {
        reveal_strlit("Grid");
        reveal_strlit("Text");
        assert("Grid"@[0] != "Text"@[0]);
    }
    assert("Grid"@ != "VStack"@) by {
        reveal_strlit("Grid");
        reveal_strlit("VStack");
        assert("Grid"@.len() != "VStack"@.len());
    }
    assert("Grid"@ != "HStack"@) by {
        reveal_strlit("Grid");
        reveal_strlit("HStack");
        assert("Grid"@.len() != "HStack"@.len());
    }
    assert("Grid"@ != "Button"@) by {
        reveal_strlit("Grid");
        reveal_strlit("Button");
        assert("Grid"@.len() != "Button"@.len());
    }
    assert("Grid"@ != "TextField"@) by {
        reveal_strlit("Grid");
        reveal_strlit("TextField");
        assert("Grid"@.len() != "TextField"@.len());
    }
    assert("Grid"@ != "Toggle"@) by {
        reveal_strlit("Grid");
        reveal_strlit("Toggle");
        assert("Grid"@.len() != "Toggle"@.len());
    }
    assert("Grid"@ != "Slider"@) by {
        reveal_strlit("Grid");
        reveal_strlit("Slider");
        assert("Grid"@.len() != "Slider"@.len());
    }
    assert("Grid"@ != "Spacer"@) by {
        reveal_strlit("Grid");
        reveal_strlit("Spacer");
        assert("Grid"@.len() != "Spacer"@.len());
    }
    assert("Grid"@ != "Divider"@) by {
        reveal_strlit("Grid");
        reveal_strlit("Divider");
        assert("Grid"@.len() != "Divider"@.len());
    }
    assert("Grid"@ != "Image"@) by {
        reveal_strlit("Grid");
        reveal_strlit("Image");
        assert("Grid"@.len() != "Image"@.len());
    }
    assert("Grid"@ != "ImageFile"@) by {
        reveal_strlit("Grid");
        reveal_strlit("ImageFile");
        assert("Grid"@.len() != "ImageFile"@.len());
    }
    assert("Grid"@ != "ScrollView"@) by {
        reveal_strlit("Grid");
        reveal_strlit("ScrollView");
        assert("Grid"@.len() != "ScrollView"@.len());
    }
    assert("Grid"@ != "LazyVStack"@) by {
        reveal_strlit("Grid");
        reveal_strlit("LazyVStack");
        assert("Grid"@.len() != "LazyVStack"@.len());
    }
    assert("Grid"@ != "Picker"@) by {
        reveal_strlit("Grid");
        reveal_strlit("Picker");
        assert("Grid"@.len() != "Picker"@.len());
    }
    assert("Grid"@ != "ProgressView"@) by {
        reveal_strlit("Grid");
        reveal_strlit("ProgressView");
        assert("Grid"@.len() != "ProgressView"@.len());
    }
    assert("Grid"@ != "Section"@) by {
        reveal_strlit("Grid");
        reveal_strlit("Section");
        assert("Grid"@.len() != "Section"@.len());
    }
    assert("Grid"@ != "Tabs"@) by {
        reveal_strlit("Grid");
        reveal_strlit("Tabs");
        assert("Grid"@[0] != "Tabs"@[0]);
    }
    assert("Grid"@ != "Modal"@) by {
        reveal_strlit("Grid");
        reveal_strlit("Modal");
        assert("Grid"@.len() != "Modal"@.len());
    }
    assert("Grid"@ != "Dialog"@) by {
        reveal_strlit("Grid");
        reveal_strlit("Dialog");
        assert("Grid"@.len() != "Dialog"@.len());
    }
    assert("Grid"@ != "Menu"@) by {
        reveal_strlit("Grid");
        reveal_strlit("Menu");
        assert("Grid"@[0] != "Menu"@[0]);
    }
    assert("Grid"@ != "ContextMenu"@) by {
        reveal_strlit("Grid");
        reveal_strlit("ContextMenu");
        assert("Grid"@.len() != "ContextMenu"@.len());
    }
}

/// Widgets that call back: what each shows comes from its arguments, and the closure at
/// its place, the second argument, for a slider the third, is the one that is registered.
#[verifier::rlimit(40)]
pub proof fn law_controls_register_their_callback(
    args: Seq<ExprView>,
    env: EnvView,
    p: PlaceView,
    emit: EmitView,
    left: nat,
)
    ensures
        bare("Button"@, args, env, p, emit, left) matches Some(run) && run.text == button(
            text_at(args, 0, "Button"@),
            at(args, 1),
            emit.callbacks,
        ) && run.emit == (EmitView { callbacks: registered(at(args, 1), emit.callbacks), ..emit }),
        bare("TextField"@, args, env, p, emit, left) matches Some(run) && run.text == textfield(
            args,
            emit.callbacks,
        ) && run.emit == (EmitView { callbacks: registered(at(args, 1), emit.callbacks), ..emit }),
        bare("Toggle"@, args, env, p, emit, left) matches Some(run) && run.text == toggle(
            args,
            emit.callbacks,
        ) && run.emit == (EmitView { callbacks: registered(at(args, 1), emit.callbacks), ..emit }),
        bare("Slider"@, args, env, p, emit, left) matches Some(run) && run.text == slider(
            args,
            emit.callbacks,
        ) && run.emit == (EmitView { callbacks: registered(at(args, 2), emit.callbacks), ..emit }),
        bare("Picker"@, args, env, p, emit, left) matches Some(run) && run.text == picker(
            args,
            emit.callbacks,
        ) && run.emit == (EmitView { callbacks: registered(at(args, 1), emit.callbacks), ..emit }),
{
    lemma_widget_names();
}

/// Widgets that only show something register no callback.
pub proof fn law_displays_register_no_callback(
    args: Seq<ExprView>,
    env: EnvView,
    p: PlaceView,
    emit: EmitView,
    left: nat,
)
    ensures
        bare("Text"@, args, env, p, emit, left) matches Some(run) && run.text == text_widget(
            args,
            p.locals,
        ) && run.emit == (EmitView { slots: text_slots(args, emit.slots), ..emit }),
        bare("Spacer"@, args, env, p, emit, left) == Some(WidgetRun { text: "Blank()"@, emit }),
        bare("Divider"@, args, env, p, emit, left) == Some(WidgetRun { text: "Divider()"@, emit }),
        bare("Image"@, args, env, p, emit, left) == Some(WidgetRun { text: image(args), emit }),
        bare("ImageFile"@, args, env, p, emit, left) == bare("Image"@, args, env, p, emit, left),
        bare("ProgressView"@, args, env, p, emit, left) == Some(
            WidgetRun { text: progress(args), emit },
        ),
        bare("Dialog"@, args, env, p, emit, left) == bare("Modal"@, args, env, p, emit, left),
        bare("ContextMenu"@, args, env, p, emit, left) == bare("Menu"@, args, env, p, emit, left),
{
    lemma_widget_names();
}

/// Stacks, which differ in their direction alone, and the other containers.
#[verifier::rlimit(40)]
pub proof fn law_containers_by_name(
    args: Seq<ExprView>,
    env: EnvView,
    p: PlaceView,
    emit: EmitView,
    left: nat,
)
    ensures
        bare("VStack"@, args, env, p, emit, left) matches Some(run) ==> begins_with(
            run.text,
            "Column"@,
        ),
        bare("HStack"@, args, env, p, emit, left) matches Some(run) ==> begins_with(
            run.text,
            "Row"@,
        ),
        bare("VStack"@, args, env, p, emit, left) == stack("Column"@, args, env, p, emit, left),
        bare("HStack"@, args, env, p, emit, left) == stack("Row"@, args, env, p, emit, left),
        bare("ScrollView"@, args, env, p, emit, left) == scrollview(args, env, p, emit, left),
        bare("Section"@, args, env, p, emit, left) == section(args, env, p, emit, left),
        bare("Tabs"@, args, env, p, emit, left) == tabs(args, env, p, emit, left),
        bare("Grid"@, args, env, p, emit, left) == grid(args, env, p, emit, left),
        bare("Menu"@, args, env, p, emit, left) matches Some(run) && run.text == menu(
            args,
            emit.callbacks,
        ) && run.emit == (EmitView {
            callbacks: menu_items(menu_list(args), emit.callbacks).1,
            ..emit
        }),
{
    lemma_widget_names();
    match stack("Column"@, args, env, p, emit, left) {
        Some(run) => {
            assert(run.text.take("Column"@.len() as int) =~= "Column"@);
        },
        None => {},
    }
    match stack("Row"@, args, env, p, emit, left) {
        Some(run) => {
            assert(run.text.take("Row"@.len() as int) =~= "Row"@);
        },
        None => {},
    }
}

/// A name that is none of these stands for no widget, and is shown as such.
pub proof fn law_other_names_are_unsupported(
    name: Seq<char>,
    args: Seq<ExprView>,
    env: EnvView,
    p: PlaceView,
    emit: EmitView,
    left: nat,
)
    requires
        name != "Text"@,
        name != "VStack"@,
        name != "HStack"@,
        name != "Button"@,
        name != "TextField"@,
        name != "Toggle"@,
        name != "Slider"@,
        name != "Spacer"@,
        name != "Divider"@,
        name != "Image"@,
        name != "ImageFile"@,
        name != "ScrollView"@,
        name != "LazyVStack"@,
        name != "Picker"@,
        name != "ProgressView"@,
        name != "Section"@,
        name != "Tabs"@,
        name != "Modal"@,
        name != "Dialog"@,
        name != "Menu"@,
        name != "ContextMenu"@,
        name != "Grid"@,
    ensures
        bare(name, args, env, p, emit, left) == Some(WidgetRun { text: unsupported(name), emit }),
{
}

// ---------------------------------------------------------------------------
// Children
// ---------------------------------------------------------------------------

/// A list of widgets has one text for each item, in order; each item is emitted after
/// those in front of it.
pub proof fn law_children_in_order(
    items: Seq<ExprView>,
    k: nat,
    i: nat,
    env: EnvView,
    p: PlaceView,
    emit: EmitView,
    left: nat,
)
    requires
        i < k <= items.len(),
        widgets(items, k, env, p, emit, left) is Some,
    ensures
        widgets(items, k, env, p, emit, left)->0.texts.len() == k,
        widgets(items, i, env, p, emit, left) matches Some(front) && (widget(
            items[i as int],
            env,
            p,
            front.emit,
            left,
        ) matches Some(one) && one.text == widgets(items, k, env, p, emit, left)->0.texts[i as int]),
        widgets(items, 0, env, p, emit, left) == Some(ListRun { texts: Seq::empty(), emit }),
    decreases k,
{
    let j = (k - 1) as nat;
    if i < j {
        law_children_in_order(items, j, i, env, p, emit, left);
    } else if j > 0 {
        law_children_in_order(items, j, (j - 1) as nat, env, p, emit, left);
    }
}

/// The children of an array are its items; a loop is one child; nothing else has
/// children.
pub proof fn law_children_of(
    e: ExprView,
    env: EnvView,
    p: PlaceView,
    emit: EmitView,
    left: nat,
)
    ensures
        e matches ExprView::Array(items) ==> kids(e, env, p, emit, left) == widgets(
            items,
            items.len(),
            env,
            p,
            emit,
            left,
        ),
        e is ArrayMap ==> (kids(e, env, p, emit, left) matches Some(run) ==> run.texts.len() == 1
            && widget(e, env, p, emit, left) == Some(
            WidgetRun { text: run.texts[0], emit: run.emit },
        )),
        !(e is Array) && !(e is ArrayMap) ==> kids(e, env, p, emit, left) == Some(
            ListRun { texts: Seq::empty(), emit },
        ),
{
}

/// A list of tabs has one block for each item, in order; each is emitted after those in
/// front of it.
pub proof fn law_tabs_in_order(
    items: Seq<ExprView>,
    k: nat,
    i: nat,
    env: EnvView,
    p: PlaceView,
    emit: EmitView,
    left: nat,
)
    requires
        i < k <= items.len(),
        tab_blocks(items, k, env, p, emit, left) is Some,
    ensures
        tab_blocks(items, k, env, p, emit, left)->0.texts.len() == k,
        tab_blocks(items, i, env, p, emit, left) matches Some(front) && (tab(
            items[i as int],
            env,
            p,
            front.emit,
            left,
        ) matches Some(one) && one.text == tab_blocks(
            items,
            k,
            env,
            p,
            emit,
            left,
        )->0.texts[i as int]),
    decreases k,
{
    let j = (k - 1) as nat;
    if i < j {
        law_tabs_in_order(items, j, i, env, p, emit, left);
    } else if j > 0 {
        law_tabs_in_order(items, j, (j - 1) as nat, env, p, emit, left);
    }
}

/// Texts are stacked in order, each on lines of its own, all at one level.
pub proof fn law_stacked(
    a: Seq<Seq<char>>,
    b: Seq<Seq<char>>,
    t: Seq<char>,
    level: nat,
)
    ensures
        stacked(Seq::empty(), level) == Seq::<char>::empty(),
        stacked(seq![t], level) == indented(t, levels(level)),
        a.len() > 0 && b.len() > 0 ==> stacked(a + b, level) == stacked(a, level) + "\n"@ + stacked(
            b,
            level,
        ),
{
    let pad = |x: Seq<char>| indented(x, levels(level));
    assert(Seq::<Seq<char>>::empty().map_values(pad) =~= Seq::empty());
    assert(seq![t].map_values(pad) =~= seq![indented(t, levels(level))]);
    assert((a + b).map_values(pad) =~= a.map_values(pad) + b.map_values(pad));
    law_join(a.map_values(pad), b.map_values(pad), t, "\n"@);
}

/// A stack shows all its children, one level further in, with the space between them
/// that is given.
pub proof fn law_stack_shows_its_children(
    kind: Seq<char>,
    space: Seq<char>,
    texts: Seq<Seq<char>>,
    depth: nat,
)
    ensures
        begins_with(stack_text(kind, space, texts, depth), kind + "({ space: "@ + space + " }) {\n"@),
        occurs(stacked(texts, depth + 1), stack_text(kind, space, texts, depth)),
{
    let s = stack_text(kind, space, texts, depth);
    let h = kind + "({ space: "@ + space + " }) {\n"@;
    let kids = stacked(texts, depth + 1);
    assert(s.take(h.len() as int) =~= h);
    assert(s =~= h + kids + ("\n"@ + levels(depth) + "}"@));
    assert(split_at(kids, s, h, "\n"@ + levels(depth) + "}"@));
}

/// The space of a stack is its number, in front of the children or behind them; 8 where
/// none is given.
pub proof fn law_stack_spacing(args: Seq<ExprView>)
    ensures
        args.len() == 0 ==> stack_spacing(args) == "8"@,
        args.len() > 0 && given(Some(args[0])) is Some ==> stack_spacing(args) == given(
            Some(args[0]),
        )->0,
        args.len() > 0 && (args[0] is Array || args[0] is ArrayMap) ==> stack_spacing(args)
            == number_at(args, 1, "8"@),
        args.len() > 0 && given(Some(args[0])) is None && !(args[0] is Array) && !(
        args[0] is ArrayMap) ==> stack_spacing(args) == "8"@,
{
}

/// A stack has the children that its first argument gives, or its second behind a
/// number.
pub proof fn law_stack_takes_its_children(
    kind: Seq<char>,
    args: Seq<ExprView>,
    items: Seq<ExprView>,
    i: int,
    env: EnvView,
    p: PlaceView,
    emit: EmitView,
    left: nat,
)
    requires
        i == 0 || i == 1,
        i < args.len(),
        args[i] == ExprView::Array(items),
        i == 1 ==> given(Some(args[0])) is Some,
    ensures
        match widgets(items, items.len(), env, deeper(p, 1), emit, left) {
            Some(list) => stack(kind, args, env, p, emit, left) matches Some(run) && run.text
                == stack_text(kind, stack_spacing(args), list.texts, p.depth) && run.emit
                == list.emit,
            None => stack(kind, args, env, p, emit, left) is None,
        },
{
    law_children_of(args[i], env, deeper(p, 1), emit, left);
}

/// A scroll view shows all its children, two levels further in.
#[verifier::rlimit(40)]
pub proof fn law_scrollview_shows_its_children(
    args: Seq<ExprView>,
    items: Seq<ExprView>,
    env: EnvView,
    p: PlaceView,
    emit: EmitView,
    left: nat,
)
    requires
        args.len() > 0,
        args[0] == ExprView::Array(items),
    ensures
        match widgets(items, items.len(), env, deeper(p, 2), emit, left) {
            Some(list) => scrollview(args, env, p, emit, left) matches Some(run) && begins_with(
                run.text,
                "Scroll() {\n"@,
            ) && occurs(stacked(list.texts, p.depth + 2), run.text) && run.emit == list.emit,
            None => scrollview(args, env, p, emit, left) is None,
        },
{
    law_children_of(args[0], env, deeper(p, 2), emit, left);
    match widgets(items, items.len(), env, deeper(p, 2), emit, left) {
        Some(list) => {
            let text = scrollview(args, env, p, emit, left)->0.text;
            let d = p.depth;
            let kids = stacked(list.texts, d + 2);
            let a = "Scroll() {\n"@ + levels(d + 1) + "Column({ space: 8 }) {\n"@;
            let b = "\n"@ + levels(d + 1) + "}\n"@ + levels(d) + "}"@;
            assert(text =~= a + kids + b);
            assert(split_at(kids, text, a, b));
            assert(text.take("Scroll() {\n"@.len() as int) =~= "Scroll() {\n"@);
        },
        None => {},
    }
}

/// A section shows its title, the first argument, and below it its children.
#[verifier::rlimit(40)]
pub proof fn law_section_shows_title_and_children(
    args: Seq<ExprView>,
    items: Seq<ExprView>,
    env: EnvView,
    p: PlaceView,
    emit: EmitView,
    left: nat,
)
    requires
        args.len() > 1,
        args[1] == ExprView::Array(items),
        items.len() > 0,
    ensures
        match widgets(items, items.len(), env, deeper(p, 1), emit, left) {
            Some(list) => section(args, env, p, emit, left) matches Some(run) && begins_with(
                run.text,
                "Column({ space: 4 }) {\n"@ + levels(p.depth + 1) + "Text("@ + string_lit(
                    text_at(args, 0, ""@),
                ),
            ) && occurs(stacked(list.texts, p.depth + 1), run.text) && run.emit == list.emit,
            None => section(args, env, p, emit, left) is None,
        },
{
    law_children_of(args[1], env, deeper(p, 1), emit, left);
    match widgets(items, items.len(), env, deeper(p, 1), emit, left) {
        Some(list) => {
            law_children_in_order(items, items.len(), 0, env, deeper(p, 1), emit, left);
            let text = section(args, env, p, emit, left)->0.text;
            let d = p.depth;
            let kids = stacked(list.texts, d + 1);
            let h = "Column({ space: 4 }) {\n"@ + levels(d + 1) + "Text("@ + string_lit(
                text_at(args, 0, ""@),
            );
            let a = h + ").fontSize(14).fontColor('#888888')"@ + "\n"@;
            let b = "\n"@ + levels(d) + "}"@;
            assert(text =~= a + kids + b);
            assert(split_at(kids, text, a, b));
            assert(text.take(h.len() as int) =~= h);
        },
        None => {},
    }
}

// ---------------------------------------------------------------------------
// Loops
// ---------------------------------------------------------------------------

/// Whether the statement at the index is the first that returns or computes something.
pub open spec fn first_with_expr(body: Seq<StmtView>, i: int, e: ExprView) -> bool {
    &&& 0 <= i < body.len()
    &&& body[i] == StmtView::Return(Some(e)) || body[i] == StmtView::Expr(e)
    &&& forall|j: int|
        0 <= j < i ==> !(#[trigger] body[j] is Expr) && !(body[j] matches StmtView::Return(Some(_)))
}

/// What a closure shows is what its first statement with an expression gives.
pub proof fn law_first_expr(body: Seq<StmtView>, i: int, e: ExprView)
    ensures
        first_with_expr(body, i, e) ==> first_expr(body) == Some(e),
        (forall|j: int|
            0 <= j < body.len() ==> !(#[trigger] body[j] is Expr) && !(
            body[j] matches StmtView::Return(Some(_)))) ==> first_expr(body) is None,
    decreases body.len(),
{
    if body.len() > 0 {
        let rest = body.skip(1);
        assert forall|j: int| 0 <= j < rest.len() implies #[trigger] rest[j] == body[j + 1] by {}
        law_first_expr(rest, i - 1, e);
        if first_with_expr(body, i, e) && i > 0 {
            assert(body[0] == body[0]);
            assert(first_with_expr(rest, i - 1, e));
        }
    }
}

/// A loop runs over its array, and shows for each item what the body of its closure
/// shows, where the first parameter is the item.
#[verifier::rlimit(40)]
pub proof fn law_loop_shows_its_body(
    array: ExprView,
    callback: ExprView,
    x: LocalId,
    body: ExprView,
    env: EnvView,
    p: PlaceView,
    emit: EmitView,
    left: nat,
)
    requires
        callback matches ExprView::Closure { params, body: stmts, .. } && params.len() > 0
            && params[0].id == x && first_expr(stmts) == Some(body),
    ensures
        ({
            let e = ExprView::ArrayMap { array: Box::new(array), callback: Box::new(callback) };
            let inner = widget(
                body,
                env,
                PlaceView { depth: p.depth + 1, locals: p.locals.push(x) },
                emit,
                left,
            );
            match inner {
                Some(one) => for_each(e, env, p, emit, left) matches Some(run) && begins_with(
                    run.text,
                    "ForEach("@ + array_source(array, env.bindings) + ", (__item: any) => {\n"@
                        + indented(one.text, levels(p.depth + 1)),
                ) && run.emit == one.emit,
                None => for_each(e, env, p, emit, left) is None,
            }
        }),
{
    let e = ExprView::ArrayMap { array: Box::new(array), callback: Box::new(callback) };
    assert(loop_param(callback) == Some(x));
    assert(loop_body(callback) == Some(body));
    match widget(body, env, in_loop(p, x, 1), emit, left) {
        Some(one) => {
            let h = "ForEach("@ + array_source(array, env.bindings) + ", (__item: any) => {\n"@
                + indented(one.text, levels(p.depth + 1));
            let text = for_each(e, env, p, emit, left)->0.text;
            assert(text.take(h.len() as int) =~= h);
        },
        None => {},
    }
}

/// A lazy list registers one data source, over its array, behind those of its body, and
/// runs over the field of that source.
#[verifier::rlimit(40)]
pub proof fn law_lazy_list_registers_its_source(
    source: Seq<char>,
    body: WidgetRun,
    depth: nat,
)
    ensures
        ({
            let run = lazy_run(source, body, depth);
            let n = body.emit.lazies.len();
            &&& run.emit.lazies.len() == n + 1
            &&& run.emit.lazies.drop_last() == body.emit.lazies
            &&& run.emit.lazies.last().items_source == source
            &&& run.emit.lazies.last().field_id == lazy_field_id(n)
            &&& run.emit.callbacks == body.emit.callbacks
            &&& run.emit.slots == body.emit.slots
            &&& occurs("LazyForEach(this."@ + lazy_field_id(n) + ", (__item: any) => {\n"@, run.text)
            &&& occurs(indented(body.text, levels(depth + 3)), run.text)
        }),
{
    let run = lazy_run(source, body, depth);
    let n = body.emit.lazies.len();
    let field = lazy_field_id(n);
    assert(run.emit.lazies.drop_last() =~= body.emit.lazies);
    let head = "LazyForEach(this."@ + field + ", (__item: any) => {\n"@;
    let kids = indented(body.text, levels(depth + 3));
    let a = "List() {\n"@ + levels(depth + 1);
    let mid = levels(depth + 2) + "ListItem() {\n"@;
    let b = "\n"@ + levels(depth + 2) + "}\n"@ + levels(depth + 1)
        + "}, (__item: any) => __item)\n"@ + levels(depth) + "}"@;
    assert(run.text =~= a + head + (mid + kids + b));
    assert(split_at(head, run.text, a, mid + kids + b));
    assert(run.text =~= (a + head + mid) + kids + b);
    assert(split_at(kids, run.text, a + head + mid, b));
}

/// A lazy list is a loop: it runs over the array, and shows what the body of its closure
/// shows, where the first parameter is the item.
pub proof fn law_lazy_list_is_a_loop(
    array: ExprView,
    callback: ExprView,
    x: LocalId,
    body: ExprView,
    env: EnvView,
    p: PlaceView,
    emit: EmitView,
    left: nat,
)
    requires
        callback matches ExprView::Closure { params, body: stmts, .. } && params.len() > 0
            && params[0].id == x && first_expr(stmts) == Some(body),
    ensures
        lazy_list(
            ExprView::ArrayMap { array: Box::new(array), callback: Box::new(callback) },
            env,
            p,
            emit,
            left,
        ) == match widget(
            body,
            env,
            PlaceView { depth: p.depth + 3, locals: p.locals.push(x) },
            emit,
            left,
        ) {
            Some(one) => Some(lazy_run(array_source(array, env.bindings), one, p.depth)),
            None => None,
        },
{
    assert(loop_param(callback) == Some(x));
    assert(loop_body(callback) == Some(body));
}

// ---------------------------------------------------------------------------
// Tabs and grids
// ---------------------------------------------------------------------------

/// A tab shows what its body shows, and its label in the bar; the label is `Tab` where
/// it has none.
#[verifier::rlimit(40)]
pub proof fn law_tab_shows_label_and_body(
    e: ExprView,
    body: ExprView,
    env: EnvView,
    p: PlaceView,
    emit: EmitView,
    left: nat,
)
    requires
        prop_in(e, env.classes, "body"@) == Some(body),
    ensures
        ({
            let label = match prop_in(e, env.classes, "label"@) {
                Some(ExprView::String(s)) => s,
                _ => "Tab"@,
            };
            match widget(body, env, deeper(p, 2), emit, left) {
                Some(one) => tab(e, env, p, emit, left) matches Some(run) && occurs(
                    indented(one.text, levels(p.depth + 2)),
                    run.text,
                ) && occurs(".tabBar("@ + string_lit(label) + ")"@, run.text) && run.emit
                    == one.emit,
                None => tab(e, env, p, emit, left) is None,
            }
        }),
{
    let label = match prop_in(e, env.classes, "label"@) {
        Some(ExprView::String(s)) => s,
        _ => "Tab"@,
    };
    match widget(body, env, deeper(p, 2), emit, left) {
        Some(one) => {
            let d = p.depth;
            let text = tab(e, env, p, emit, left)->0.text;
            let kids = indented(one.text, levels(d + 2));
            let a = levels(d + 1) + "TabContent() {\n"@;
            let b = "\n"@ + levels(d + 1) + "}.tabBar("@ + string_lit(label) + ")"@;
            assert(text =~= a + kids + b);
            assert(split_at(kids, text, a, b));
            reveal_strlit("}.tabBar(");
            reveal_strlit(".tabBar(");
            reveal_strlit("}");
            assert("}.tabBar("@ =~= "}"@ + ".tabBar("@);
            let bar = ".tabBar("@ + string_lit(label) + ")"@;
            let front = a + kids + ("\n"@ + levels(d + 1) + "}"@);
            assert(text =~= front + bar + Seq::empty());
            assert(split_at(bar, text, front, Seq::empty()));
        },
        None => {},
    }
}

/// The number of columns of a grid lies from 1 to 12: the number that is given, cut off
/// to a whole one, or the nearest of these; 2 where none is given.
pub proof fn law_grid_columns(args: Seq<ExprView>)
    ensures
        1 <= grid_columns(args) <= 12,
        args.len() == 0 || given(Some(args[0])) is None ==> grid_columns(args) == 2,
        args.len() > 0 ==> (args[0] matches ExprView::Integer(n) ==> (1 <= n <= 12
            ==> grid_columns(args) == n) && (n < 1 ==> grid_columns(args) == 1) && (n > 12
            ==> grid_columns(args) == 12)),
        args.len() > 0 ==> (args[0] matches ExprView::Number(x) ==> (1 <= truncated(x.bits) <= 12
            ==> grid_columns(args) == truncated(x.bits)) && (truncated(x.bits) < 1
            ==> grid_columns(args) == 1) && (truncated(x.bits) > 12 ==> grid_columns(args) == 12)),
{
}

/// A grid shows each of its items in a cell, and has one equal column for each that is
/// asked for.
#[verifier::rlimit(40)]
pub proof fn law_grid_shows_its_items(columns: nat, texts: Seq<Seq<char>>, i: int, depth: nat)
    requires
        0 <= i < texts.len(),
    ensures
        occurs(indented(texts[i], levels(depth + 2)), grid_text(columns, texts, depth)),
        occurs(
            "}.columnsTemplate('"@ + join(Seq::new(columns, |j: int| "1fr"@), " "@) + "')"@,
            grid_text(columns, texts, depth),
        ),
{
    let cells = texts.map_values(|t: Seq<char>| grid_item_text(t, depth));
    let kids = indented(texts[i], levels(depth + 2));
    let a = levels(depth + 1) + "GridItem() {\n"@;
    let b = "\n"@ + levels(depth + 1) + "}"@;
    assert(cells[i] == grid_item_text(texts[i], depth));
    assert(cells[i] =~= a + kids + b);
    assert(split_at(kids, cells[i], a, b));
    lemma_occurs_join(kids, cells, "\n"@, i);
    let all = join(cells, "\n"@);
    let bar = "}.columnsTemplate('"@ + join(Seq::new(columns, |j: int| "1fr"@), " "@) + "')"@;
    let text = grid_text(columns, texts, depth);
    lemma_occurs_right(kids, "Grid() {\n"@, all);
    lemma_occurs_left(kids, "Grid() {\n"@ + all, "\n"@ + levels(depth) + bar);
    assert(text =~= "Grid() {\n"@ + all + ("\n"@ + levels(depth) + bar));
    let front = "Grid() {\n"@ + all + "\n"@ + levels(depth);
    assert(text =~= front + bar + Seq::empty());
    assert(split_at(bar, text, front, Seq::empty()));
}

// ---------------------------------------------------------------------------
// Variables and styles
// ---------------------------------------------------------------------------

/// A call of a widget is followed by the modifiers of the object that is its last
/// argument; without such an object it has none.
pub proof fn law_style_is_the_last_argument(args: Seq<ExprView>, classes: Seq<ClassView>)
    ensures
        args.len() > 0 ==> (object_props(args[args.len() - 1], classes) matches Some(props)
            ==> style_text(args, classes) == style_modifiers(props)),
        args.len() == 0 || object_props(args[args.len() - 1], classes) is None ==> style_text(
            args,
            classes,
        ).len() == 0,
{
}

/// A widget is its own text with its style behind it.
pub proof fn law_widget_has_its_style(
    e: ExprView,
    name: Seq<char>,
    args: Seq<ExprView>,
    env: EnvView,
    p: PlaceView,
    emit: EmitView,
    left: nat,
)
    requires
        e matches ExprView::NativeMethodCall { module, method, args: v, .. } && module
            == "perry/ui"@ && method == name && v == args,
    ensures
        match bare(name, args, env, p, emit, left) {
            Some(run) => shown(e, env, p, emit, left) matches Some(styled) && styled.text
                == run.text + style_text(args, env.classes) && styled.emit == run.emit,
            None => shown(e, env, p, emit, left) is None,
        },
{
}

/// `x.text()` of a state variable shows the field of its name, and registers a slot with
/// the name and the first text.
pub proof fn law_state_text_is_shown(
    e: ExprView,
    x: LocalId,
    env: EnvView,
    p: PlaceView,
    emit: EmitView,
    left: nat,
)
    requires
        e matches ExprView::Call { callee, args, .. } && args.len() == 0 && (
        *callee matches ExprView::PropertyGet { object, property } && *object
            == ExprView::LocalGet(x) && property == "text"@),
        env.states.contains_key(x),
        p.depth + 3 <= usize::MAX,
    ensures
        widget(e, env, p, emit, left) matches Some(run) && {
            let s = env.states[x];
            &&& run.text == "Text(this.text_"@ + sanitized(s.name) + ").fontSize(20)"@
            &&& run.emit.slots.len() == emit.slots.len() + 1
            &&& run.emit.slots.last().original_id == s.name
            &&& run.emit.slots.last().field_id == sanitized(s.name)
            &&& run.emit.slots.last().initial == s.initial
            &&& run.emit.callbacks == emit.callbacks
            &&& run.emit.lazies == emit.lazies
        },
{
}

/// A variable that is bound shows what it is bound to.
pub proof fn law_bound_variable_is_shown(
    x: LocalId,
    env: EnvView,
    p: PlaceView,
    emit: EmitView,
    left: nat,
)
    requires
        env.bindings.contains_key(x),
        left > 0,
        p.depth + 3 <= usize::MAX,
        !(env.bindings[x] is LocalGet),
        state_text(env.bindings[x], env.states) is None,
    ensures
        widget(ExprView::LocalGet(x), env, p, emit, left) == widget(
            env.bindings[x],
            env,
            p,
            emit,
            (left - 1) as nat,
        ),
{
}

/// Only `x.text()`, without arguments, shows a state variable.
pub proof fn law_only_text_shows_a_state(e: ExprView, states: Map<LocalId, StateView>)
    ensures
        state_text(e, states) matches Some(s) ==> (e matches ExprView::Call { callee, args, .. }
            && args.len() == 0 && (*callee matches ExprView::PropertyGet { object, property }
            && property == "text"@ && (*object matches ExprView::LocalGet(x) && states.contains_key(
            x,
        ) && states[x] == s))),
{
}

/// What is neither a call of a widget nor a loop is noted in its place, and registers
/// nothing.
pub proof fn law_anything_else_is_unrecognized(
    e: ExprView,
    env: EnvView,
    p: PlaceView,
    emit: EmitView,
    left: nat,
)
    requires
        e matches ExprView::NativeMethodCall { module, .. } ==> module != "perry/ui"@,
        !(e is ArrayMap),
    ensures
        shown(e, env, p, emit, left) == Some(WidgetRun { text: UNRECOGNIZED@, emit }),
{
}

/// A stack whose children are no array shows a note in place of them; one without
/// arguments has no children.
pub proof fn law_stack_of_no_array(
    kind: Seq<char>,
    args: Seq<ExprView>,
    env: EnvView,
    p: PlaceView,
    emit: EmitView,
    left: nat,
)
    ensures
        args.len() == 0 ==> stack(kind, args, env, p, emit, left) == Some(
            WidgetRun { text: stack_text(kind, "8"@, Seq::empty(), p.depth), emit },
        ),
        args.len() > 0 && given(Some(args[0])) is None && !(args[0] is Array) && !(
        args[0] is ArrayMap) ==> stack(kind, args, env, p, emit, left) == Some(
            WidgetRun { text: stack_text(kind, "8"@, seq![NOT_AN_ARRAY@], p.depth), emit },
        ),
{
}

/// Further in, the loop variables are the same, and every level counts.
pub proof fn law_deeper(p: PlaceView, a: nat, b: nat)
    ensures
        deeper(p, a).depth == p.depth + a,
        deeper(p, a).locals == p.locals,
        deeper(deeper(p, a), b) == deeper(p, a + b),
{
}

} // verus!

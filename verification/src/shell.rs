use vstd::prelude::*;

verus! {

/// The size to configure a layer-shell window with. Layer shell sends 0 in a
/// dimension to mean "pick your own size": that dimension falls back to the
/// size the window was spawned with (`stored`), or to the sent value when the
/// window's size is not known.
pub fn layer_configure_size(width: u32, height: u32, stored: Option<(u32, u32)>) -> (r: (u32, u32))
    ensures
        r.0 == if width != 0 { width } else { match stored { Some(s) => s.0, None => width } },
        r.1 == if height != 0 { height } else { match stored { Some(s) => s.1, None => height } },
{
    let (stored_w, stored_h) = match stored {
        Some(s) => s,
        None => (width, height),
    };
    let w = if width == 0 { stored_w } else { width };
    let h = if height == 0 { stored_h } else { height };
    (w, h)
}

} // verus!

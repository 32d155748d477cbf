# fluid_sim

The verified core of a small 2D particle-fluid demo.

- `src/` is the library, checked by Verus:
  - `geometry`: cell edges and corners, and the interpolated point where the
    fluid boundary crosses an edge, held as an exact fraction.
  - `lookup`: the marching-squares triangle table and its shape.
  - `density_grid`: the corner grid that counts particles near each corner.
  - `marching_squares`: case numbers, shades and the triangulation of a grid.
  - `layout`: where the particles start.
  - `mouse_control`: the push direction of the mouse and the obstacle
    drawing decisions of a frame.
- `app/` is the Bevy program around it: windows, rendering, input, and the
  floating-point physics (densities, pressure, movement and collisions).
- `tests/` exercises the library on concrete values.

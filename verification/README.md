# ocl_plotter

Plotting nonces on OpenCL devices, with the decisions verified by Verus.

- `src/` is the library. It reads device selectors, sizes contexts to a
  device's memory, walks through the setup of the selected devices, lists
  platforms and devices, and gives the commands that compute nonces. It never
  calls a driver: it says what to ask next and takes the answer as a plain
  value.
- `app/` holds the driver's handles, asks it through `ocl-core`, prints, and
  carries the commands out.
- `tests/` runs the library on concrete values.

The kernel's source is read from `ocl/kernel.cl` when a device is set up.

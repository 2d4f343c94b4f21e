# graphics

Identifier generation behind a repository interface, plus the integer logic
of a small `.blend` mesh viewer, verified with Verus.

- `src/component/id.rs`: `Id`, the `IdRepository` trait and `IdInteractor`.
- `src/driver/uuid_driver.rs`: `UuidRepository`, which hands out the
  little-endian values of version 4 UUIDs built from the operating system's
  random bytes.
- `src/mesh.rs`: cutting `.blend` polygons into triangles (which loop and
  vertex each corner takes), the corner count, and the triangle index list.
- `src/texture.rs`: the bytes of the generated texture from escape counts.
- `src/blend_file.rs`: recognising an uncompressed `.blend` header and a mesh
  block code, and decompressing gzipped files.
- `app/`: the program that prints a fresh identifier, and the file reading
  and floating-point work of the mesh loader.

# symplectic_opt

Symplectic matrices, Hamiltonian integrators, conservation tracking and
natural-gradient steps.

- `src/` is the verified part: the dimension rules for a 2n×2n matrix
  (`shape`), transposition (`matrix`), the exact entry patterns of the
  identity and of J = [0, I; -I, 0] (`forms`), the pairwise conservation
  decision (`conservation`), finite sums and the associativity of matrix
  products (`algebra`), and the laws of the symplectic form (`laws`):
  J^T = -J, J J = -I, I and J preserve J, and -J M^T J is an inverse of
  every M with M^T J M = J.
- `app/` holds the floating-point numerics (matrix products with a
  tolerance, the integrators, energy tracking, Fisher matrices and the
  Gauss-Seidel solve), built on the verified functions.
- `tests/` exercises the verified functions on concrete values.

# sairen_mesh

Structural core of an overlapping liquid neural mesh for real-time drilling
anomaly detection, verified with Verus.

The mesh groups 4,736 LTC/CfC neurons into 13 circuits (detection,
causation, memory, prediction) that may share neurons through overlap zones,
never more than two circuits per neuron. This crate holds, with proofs:

- `topology`, `mesh`: circuit membership bookkeeping, the two-circuit limit
  and the first violation a validation reports, input clamps, the tick;
- `layout`: the default layout and its block, type and name of each circuit;
- `overlap`: the neurons two circuits share and their pruning;
- `training`: detection and causation labels, the anomaly windows and kinds
  of synthetic data, Fisher-Yates shuffling, the source choice of
  connection initialisation, adapter wiring, skip connections, the freeze
  rules of each training stage and of the frozen universal core;
- `adaptation`: the replay buffer and the decision rules of the production
  mesh (diagnoses, causal parameter names, prediction labels, degradation mode);
- `io`: where features enter the mesh, the risk level of a set of
  detections, and the sustained anomaly windows of a run.

`app/` is the numeric layer around it: neuron dynamics, losses,
backpropagation, the optimizer, memory, encoding, the production pipeline,
serialisation and the two command-line tools. It calls the library for
every structural decision.
